//! The aggregation engine: daily summaries from three independent reads,
//! and the date-windowed weekly expansion that yields one entry per
//! calendar day, zero-activity days included.

use vstd::prelude::*;
use crate::date::{date_range, Date, Timestamp};
use crate::error::DbError;
use crate::models::{DailySummary, Task};
use crate::seq_lemmas::lemma_filter_take_step;
use crate::sessions::{
    calculate_focus_minutes_by_date, count_completed_sessions_by_date, spec_sum_durations,
    spec_work_rows,
};
use crate::store::Store;

verus! {

/// A task whose completion date is `d`.
pub open spec fn spec_task_completed_on(t: Task, d: Date) -> bool {
    t.completed_at matches Some(ts) && ts.date == d
}

/// How many tasks were completed on date `d`.
pub open spec fn spec_completed_tasks_count(tasks: Seq<Task>, d: Date) -> int {
    tasks.filter(|t: Task| spec_task_completed_on(t, d)).len() as int
}

/// What the daily summary of date `d` must hold, over the store's state.
pub open spec fn spec_daily_ok(store: Store, d: Date, s: DailySummary) -> bool {
    &&& s.date == d
    &&& s.completed_tasks_count == spec_completed_tasks_count(store.tasks@, d)
    &&& s.completed_pomodoros_count == spec_work_rows(store.sessions@, d).len()
    &&& s.total_focus_minutes == spec_sum_durations(spec_work_rows(store.sessions@, d))
}

/// Whether some aggregate of date `d` no longer fits its column.
pub open spec fn spec_daily_overflows(store: Store, d: Date) -> bool {
    ||| spec_completed_tasks_count(store.tasks@, d) > i32::MAX
    ||| spec_work_rows(store.sessions@, d).len() > i32::MAX
    ||| spec_sum_durations(spec_work_rows(store.sessions@, d)) > i32::MAX
}

/// How many tasks carry completion date `date`.
fn count_completed_tasks_by_date(store: &Store, date: Date) -> (r: Result<i32, DbError>)
    ensures
        ({
            let count = spec_completed_tasks_count(store.tasks@, date);
            &&& count <= i32::MAX ==> (r matches Ok(v) && v == count)
            &&& count > i32::MAX ==> r == Err::<i32, DbError>(DbError::StorageFailure)
        }),
{
    let ghost pred = |t: Task| spec_task_completed_on(t, date);
    let n = store.tasks.len();
    let mut count: usize = 0;
    let mut i: usize = 0;
    while i < n
        invariant
            i <= n,
            n == store.tasks@.len(),
            pred == (|t: Task| spec_task_completed_on(t, date)),
            count <= i,
            count == store.tasks@.take(i as int).filter(pred).len(),
        decreases n - i,
    {
        proof {
            lemma_filter_take_step(store.tasks@, pred, i as int);
        }
        let hit = match &store.tasks[i].completed_at {
            Some(ts) => ts.date.year == date.year && ts.date.month == date.month && ts.date.day
                == date.day,
            None => false,
        };
        if hit {
            count = count + 1;
        }
        i = i + 1;
    }
    proof {
        assert(store.tasks@.take(n as int) =~= store.tasks@);
    }
    if count > (i32::MAX as usize) {
        Err(DbError::StorageFailure)
    } else {
        Ok(count as i32)
    }
}

/// The summary of one calendar day, recomputed from the current state:
/// the tasks completed that day, the completed non-interrupted work
/// sessions started that day, and their summed durations.  A day with zero
/// activity yields all-zero counts, never an error.
pub fn get_daily_summary(store: &Store, date: Date) -> (r: Result<DailySummary, DbError>)
    requires
        store.wf(),
    ensures
        !spec_daily_overflows(*store, date) ==> (r matches Ok(s) && spec_daily_ok(
            *store,
            date,
            s,
        )),
        spec_daily_overflows(*store, date) ==> r == Err::<DailySummary, DbError>(
            DbError::StorageFailure,
        ),
        (r matches Ok(s) ==> s.completed_tasks_count >= 0 && s.completed_pomodoros_count >= 0
            && s.total_focus_minutes >= 0),
{
    let completed_tasks_count = match count_completed_tasks_by_date(store, date) {
        Ok(v) => v,
        Err(e) => {
            return Err(e);
        },
    };
    let completed_pomodoros_count = match count_completed_sessions_by_date(store, date) {
        Ok(v) => v,
        Err(e) => {
            return Err(e);
        },
    };
    let total_focus_minutes = match calculate_focus_minutes_by_date(store, date) {
        Ok(v) => v,
        Err(e) => {
            return Err(e);
        },
    };
    Ok(
        DailySummary {
            date,
            completed_tasks_count,
            completed_pomodoros_count,
            total_focus_minutes,
        },
    )
}

/// One summary per calendar day of the inclusive range `[start_date,
/// end_date]`, in ascending date order; a day with zero activity yields an
/// all-zero entry.  An empty range yields an empty list.
pub fn get_weekly_summary(store: &Store, start_date: Date, end_date: Date) -> (r: Result<
    Vec<DailySummary>,
    DbError,
>)
    requires
        store.wf(),
        start_date.valid(),
        end_date.valid(),
    ensures
        (r matches Ok(v) ==> {
            let range = date_range(start_date, end_date);
            &&& v@.len() == range.len()
            &&& forall|k: int| 0 <= k < range.len() ==> spec_daily_ok(*store, range[k], #[trigger] v@[k])
        }),
        (r matches Err(e) ==> e == DbError::StorageFailure && exists|k: int|
            0 <= k < date_range(start_date, end_date).len() && spec_daily_overflows(
                *store,
                #[trigger] date_range(start_date, end_date)[k],
            )),
{
    let ghost range = date_range(start_date, end_date);
    let mut out: Vec<DailySummary> = Vec::new();
    if !start_date.le(&end_date) {
        return Ok(out);
    }
    let mut cur = start_date;
    let mut done = false;
    proof {
        assert(range =~= range.take(0) + date_range(start_date, end_date));
    }
    while !done
        invariant
            store.wf(),
            start_date.valid(),
            end_date.valid(),
            range == date_range(start_date, end_date),
            out@.len() <= range.len(),
            forall|k: int| 0 <= k < out@.len() ==> spec_daily_ok(*store, range[k], #[trigger] out@[k]),
            !done ==> cur.valid() && cur.spec_le(end_date) && out@.len() + date_range(
                cur,
                end_date,
            ).len() == range.len() && range =~= range.take(out@.len() as int) + date_range(
                cur,
                end_date,
            ),
            done ==> out@.len() == range.len(),
        decreases (if done {
            0
        } else {
            end_date.idx() - cur.idx() + 1
        }),
    {
        let ghost len0 = out@.len() as int;
        let ghost rest = date_range(cur, end_date);
        proof {
            assert(rest[0] == cur);
            assert(rest.len() >= 1);
            assert(range.take(len0).len() == len0);
            assert(range[len0] == cur);
        }
        let s = match get_daily_summary(store, cur) {
            Ok(s) => s,
            Err(e) => {
                return Err(e);
            },
        };
        out.push(s);
        if cur.year == end_date.year && cur.month == end_date.month && cur.day == end_date.day {
            done = true;
            proof {
                assert(cur == end_date);
                assert(rest =~= seq![cur]);
                assert(out@.len() == range.len());
            }
        } else {
            proof {
                assert(cur != end_date);
                crate::date::lemma_next_idx(cur);
                crate::date::lemma_between(cur, end_date);
                assert(rest =~= seq![cur] + date_range(cur.spec_next(), end_date));
                if cur.spec_next() != end_date {
                    crate::date::lemma_lt_idx(cur.spec_next(), end_date);
                }
                assert(out@.len() + date_range(cur.spec_next(), end_date).len() == range.len());
                assert(range.take(len0 + 1) =~= range.take(len0).push(cur));
                assert(range =~= range.take(len0 + 1) + date_range(cur.spec_next(), end_date));
            }
            cur = cur.next_day();
        }
    }
    Ok(out)
}

} // verus!
