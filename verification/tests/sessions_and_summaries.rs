use tomatotask::commands;
use tomatotask::connection::DbConnection;
use tomatotask::date::{Date, Timestamp};
use tomatotask::error::DbError;
use tomatotask::migrations::run_migrations;
use tomatotask::models::{CreateSessionInput, CreateTaskInput, SessionType};
use tomatotask::sessions::{
    calculate_focus_minutes_by_date, complete_session, count_completed_sessions_by_date,
    create_session, get_session_by_id, get_sessions_by_date_range, interrupt_session,
};
use tomatotask::store::Store;
use tomatotask::summary::{get_daily_summary, get_weekly_summary};
use tomatotask::tasks::{create_task, get_task_by_id};

fn moment(year: i32, month: i32, day: i32, second_of_day: u32) -> Timestamp {
    Timestamp { date: Date { year, month, day }, second_of_day }
}

fn day(year: i32, month: i32, day: i32) -> Date {
    Date { year, month, day }
}

fn base_store() -> Store {
    let mut store = Store::new();
    run_migrations(&mut store, moment(2024, 1, 1, 0)).unwrap();
    store
}

fn work_session(task_id: Option<i64>, duration_minutes: i32) -> CreateSessionInput {
    CreateSessionInput { task_id, duration_minutes, session_type: SessionType::Work }
}

#[test]
fn test_create_and_complete_session() {
    let mut store = base_store();
    let input = work_session(None, 25);

    let session = create_session(&mut store, &input, moment(2024, 2, 1, 100)).unwrap();
    assert_eq!(session.duration_minutes, 25);
    assert_eq!(session.session_type, SessionType::Work);
    assert!(session.completed_at.is_none());

    let completed = complete_session(&mut store, session.id, moment(2024, 2, 1, 1600)).unwrap();
    assert!(completed.completed_at.is_some());
    assert!(!completed.interrupted);
}

#[test]
fn test_interrupt_session() {
    let mut store = base_store();
    let input = work_session(None, 25);

    let session = create_session(&mut store, &input, moment(2024, 2, 1, 100)).unwrap();
    let interrupted = interrupt_session(&mut store, session.id, moment(2024, 2, 1, 700)).unwrap();

    assert!(interrupted.completed_at.is_some());
    assert!(interrupted.interrupted);
}

#[test]
fn test_second_transition_is_rejected() {
    let mut store = base_store();
    let session =
        create_session(&mut store, &work_session(None, 25), moment(2024, 2, 1, 100)).unwrap();
    complete_session(&mut store, session.id, moment(2024, 2, 1, 1600)).unwrap();

    let again = complete_session(&mut store, session.id, moment(2024, 2, 1, 1700));
    assert_eq!(again.unwrap_err(), DbError::ConstraintViolation);
    let flip = interrupt_session(&mut store, session.id, moment(2024, 2, 1, 1800));
    assert_eq!(flip.unwrap_err(), DbError::ConstraintViolation);

    let read_back = get_session_by_id(&store, session.id).unwrap();
    assert!(read_back.completed_at.is_some());
    assert!(!read_back.interrupted);
}

#[test]
fn test_complete_work_session_increments_task() {
    let mut store = base_store();
    let tinput = CreateTaskInput {
        title: "Focus".to_string(),
        description: None,
        project_id: None,
        estimated_pomodoros: 4,
    };
    let task = create_task(&mut store, &tinput, moment(2024, 2, 1, 0)).unwrap();
    let before = task.completed_pomodoros;

    let session = create_session(
        &mut store,
        &work_session(Some(task.id), 25),
        moment(2024, 2, 1, 100),
    )
    .unwrap();
    let completed = commands::complete_session_and_update_task(
        &mut store,
        session.id,
        moment(2024, 2, 1, 1600),
    )
    .unwrap();
    assert!(completed.completed_at.is_some());
    assert!(!completed.interrupted);

    let bumped = get_task_by_id(&store, task.id).unwrap();
    assert_eq!(bumped.completed_pomodoros, before + 1);
}

#[test]
fn test_break_or_unbound_session_never_touches_counters() {
    let mut store = base_store();
    let tinput = CreateTaskInput {
        title: "Rest".to_string(),
        description: None,
        project_id: None,
        estimated_pomodoros: 4,
    };
    let task = create_task(&mut store, &tinput, moment(2024, 2, 1, 0)).unwrap();

    let brk = CreateSessionInput {
        task_id: Some(task.id),
        duration_minutes: 5,
        session_type: SessionType::ShortBreak,
    };
    let s1 = create_session(&mut store, &brk, moment(2024, 2, 1, 100)).unwrap();
    commands::complete_session_and_update_task(&mut store, s1.id, moment(2024, 2, 1, 400))
        .unwrap();
    assert_eq!(get_task_by_id(&store, task.id).unwrap().completed_pomodoros, 0);

    let unbound = work_session(None, 25);
    let s2 = create_session(&mut store, &unbound, moment(2024, 2, 1, 500)).unwrap();
    commands::complete_session_and_update_task(&mut store, s2.id, moment(2024, 2, 1, 2000))
        .unwrap();
    assert_eq!(get_task_by_id(&store, task.id).unwrap().completed_pomodoros, 0);
}

#[test]
fn test_create_session_rejects_bad_input() {
    let mut store = base_store();

    let zero = work_session(None, 0);
    let r = create_session(&mut store, &zero, moment(2024, 2, 1, 0));
    assert_eq!(r.unwrap_err(), DbError::ConstraintViolation);

    let dangling = work_session(Some(99), 25);
    let r = create_session(&mut store, &dangling, moment(2024, 2, 1, 0));
    assert_eq!(r.unwrap_err(), DbError::ConstraintViolation);

    assert_eq!(get_session_by_id(&store, 1).unwrap_err(), DbError::NotFound);
}

#[test]
fn test_corrupt_session_type_is_data_corruption() {
    let mut store = base_store();
    let session =
        create_session(&mut store, &work_session(None, 25), moment(2024, 2, 1, 100)).unwrap();
    store.sessions[0].session_type = "nap".to_string();

    let r = get_session_by_id(&store, session.id);
    assert_eq!(r.unwrap_err(), DbError::DataCorruption);
    let r = complete_session(&mut store, session.id, moment(2024, 2, 1, 1600));
    assert_eq!(r.unwrap_err(), DbError::DataCorruption);
    assert!(get_session_by_id(&store, session.id).is_err());
}

#[test]
fn test_session_type_codec_round_trip() {
    assert_eq!(SessionType::Work.as_str(), "work");
    assert_eq!(SessionType::ShortBreak.as_str(), "short_break");
    assert_eq!(SessionType::LongBreak.as_str(), "long_break");
    assert_eq!(SessionType::from_str("work").unwrap(), SessionType::Work);
    assert_eq!(SessionType::from_str("short_break").unwrap(), SessionType::ShortBreak);
    assert_eq!(SessionType::from_str("long_break").unwrap(), SessionType::LongBreak);
    assert_eq!(
        SessionType::from_str("pomodoro").unwrap_err(),
        "Invalid session type: pomodoro"
    );
}

#[test]
fn test_sessions_by_date_range_filters_and_sorts() {
    let mut store = base_store();
    create_session(&mut store, &work_session(None, 10), moment(2024, 3, 5, 100)).unwrap();
    create_session(&mut store, &work_session(None, 20), moment(2024, 3, 7, 50)).unwrap();
    create_session(&mut store, &work_session(None, 30), moment(2024, 3, 6, 900)).unwrap();
    create_session(&mut store, &work_session(None, 40), moment(2024, 3, 9, 0)).unwrap();

    let listed = get_sessions_by_date_range(&store, day(2024, 3, 5), day(2024, 3, 7)).unwrap();
    assert_eq!(listed.len(), 3);
    assert_eq!(listed[0].duration_minutes, 20);
    assert_eq!(listed[1].duration_minutes, 30);
    assert_eq!(listed[2].duration_minutes, 10);
}

#[test]
fn test_daily_counts_ignore_breaks_and_interruptions() {
    let mut store = base_store();
    let d = day(2024, 4, 1);

    let s1 = create_session(&mut store, &work_session(None, 25), moment(2024, 4, 1, 100)).unwrap();
    complete_session(&mut store, s1.id, moment(2024, 4, 1, 1600)).unwrap();

    let s2 = create_session(&mut store, &work_session(None, 25), moment(2024, 4, 1, 2000)).unwrap();
    interrupt_session(&mut store, s2.id, moment(2024, 4, 1, 2500)).unwrap();

    let brk = CreateSessionInput {
        task_id: None,
        duration_minutes: 5,
        session_type: SessionType::ShortBreak,
    };
    let s3 = create_session(&mut store, &brk, moment(2024, 4, 1, 3000)).unwrap();
    complete_session(&mut store, s3.id, moment(2024, 4, 1, 3300)).unwrap();

    create_session(&mut store, &work_session(None, 25), moment(2024, 4, 1, 4000)).unwrap();

    assert_eq!(count_completed_sessions_by_date(&store, d).unwrap(), 1);
    assert_eq!(calculate_focus_minutes_by_date(&store, d).unwrap(), 25);
}

#[test]
fn test_daily_summary_zero_activity() {
    let store = base_store();
    let summary = get_daily_summary(&store, day(2024, 5, 1)).unwrap();
    assert_eq!(summary.completed_tasks_count, 0);
    assert_eq!(summary.completed_pomodoros_count, 0);
    assert_eq!(summary.total_focus_minutes, 0);
}

#[test]
fn test_daily_summary_counts_everything() {
    let mut store = base_store();
    let tinput = CreateTaskInput {
        title: "Done today".to_string(),
        description: None,
        project_id: None,
        estimated_pomodoros: 1,
    };
    let task = create_task(&mut store, &tinput, moment(2024, 6, 1, 0)).unwrap();
    tomatotask::tasks::toggle_task_completion(&mut store, task.id, moment(2024, 6, 1, 700))
        .unwrap();

    let s1 = create_session(&mut store, &work_session(None, 25), moment(2024, 6, 1, 100)).unwrap();
    complete_session(&mut store, s1.id, moment(2024, 6, 1, 1600)).unwrap();
    let s2 = create_session(&mut store, &work_session(None, 30), moment(2024, 6, 1, 2000)).unwrap();
    complete_session(&mut store, s2.id, moment(2024, 6, 1, 3900)).unwrap();

    let summary = get_daily_summary(&store, day(2024, 6, 1)).unwrap();
    assert_eq!(summary.completed_tasks_count, 1);
    assert_eq!(summary.completed_pomodoros_count, 2);
    assert_eq!(summary.total_focus_minutes, 55);
}

#[test]
fn test_weekly_summary_single_day_equals_daily() {
    let mut store = base_store();
    let s1 = create_session(&mut store, &work_session(None, 25), moment(2024, 6, 2, 100)).unwrap();
    complete_session(&mut store, s1.id, moment(2024, 6, 2, 1600)).unwrap();

    let weekly = get_weekly_summary(&store, day(2024, 6, 2), day(2024, 6, 2)).unwrap();
    let daily = get_daily_summary(&store, day(2024, 6, 2)).unwrap();
    assert_eq!(weekly.len(), 1);
    assert_eq!(weekly[0], daily);
}

#[test]
fn test_weekly_summary_two_days_ascending() {
    let store = base_store();
    let weekly = get_weekly_summary(&store, day(2024, 6, 2), day(2024, 6, 3)).unwrap();
    assert_eq!(weekly.len(), 2);
    assert_eq!(weekly[0].date, day(2024, 6, 2));
    assert_eq!(weekly[1].date, day(2024, 6, 3));
}

#[test]
fn test_weekly_summary_spans_month_and_leap_boundaries() {
    let store = base_store();

    let leap = get_weekly_summary(&store, day(2024, 2, 28), day(2024, 3, 1)).unwrap();
    assert_eq!(leap.len(), 3);
    assert_eq!(leap[1].date, day(2024, 2, 29));

    let plain = get_weekly_summary(&store, day(2023, 2, 28), day(2023, 3, 1)).unwrap();
    assert_eq!(plain.len(), 2);
    assert_eq!(plain[1].date, day(2023, 3, 1));

    let year_end = get_weekly_summary(&store, day(2023, 12, 31), day(2024, 1, 1)).unwrap();
    assert_eq!(year_end.len(), 2);
    assert_eq!(year_end[1].date, day(2024, 1, 1));

    let century = get_weekly_summary(&store, day(1900, 2, 28), day(1900, 3, 1)).unwrap();
    assert_eq!(century.len(), 2);

    let quadricentennial = get_weekly_summary(&store, day(2000, 2, 28), day(2000, 3, 1)).unwrap();
    assert_eq!(quadricentennial.len(), 3);
    assert_eq!(quadricentennial[1].date, day(2000, 2, 29));

    let empty = get_weekly_summary(&store, day(2024, 6, 3), day(2024, 6, 2)).unwrap();
    assert!(empty.is_empty());
}

#[test]
fn test_restore_round_trip_and_corruption() {
    let mut store = base_store();
    create_session(&mut store, &work_session(None, 25), moment(2024, 2, 1, 100)).unwrap();
    let Store { projects, tasks, sessions, settings, schema_versions, .. } = store;

    let restored = Store::restore(
        projects.clone(),
        tasks.clone(),
        sessions.clone(),
        settings.clone(),
        schema_versions.clone(),
    )
    .unwrap();
    assert_eq!(restored.sessions.len(), 1);
    assert_eq!(restored.next_session_id, 2);

    let r = Store::restore(projects.clone(), tasks.clone(), sessions.clone(), None, schema_versions.clone());
    assert_eq!(r.unwrap_err(), DbError::DataCorruption);

    let mut bad_sessions = sessions.clone();
    bad_sessions[0].duration_minutes = 0;
    let r = Store::restore(projects, tasks, bad_sessions, settings, schema_versions);
    assert_eq!(r.unwrap_err(), DbError::DataCorruption);
}

#[test]
fn test_commands_over_shared_connection() {
    let mut store = Store::new();
    run_migrations(&mut store, moment(2024, 1, 1, 0)).unwrap();
    let db = DbConnection::new(store);

    let settings = commands::get_settings(&db).unwrap();
    assert_eq!(settings.work_duration, 25);

    let tinput = CreateTaskInput {
        title: "Shared".to_string(),
        description: None,
        project_id: None,
        estimated_pomodoros: 2,
    };
    let task = commands::create_task(&db, &tinput, moment(2024, 1, 2, 0)).unwrap();
    let toggled = commands::toggle_task_completion(&db, task.id, moment(2024, 1, 2, 60)).unwrap();
    assert!(toggled.is_completed);
    assert!(toggled.completed_at.is_some());

    let sinput = work_session(Some(task.id), 25);
    let session = commands::create_session(&db, &sinput, moment(2024, 1, 2, 100)).unwrap();
    let completed = commands::complete_session(&db, session.id, moment(2024, 1, 2, 1600)).unwrap();
    assert!(!completed.interrupted);
    assert_eq!(commands::get_task(&db, task.id).unwrap().completed_pomodoros, 1);

    let listed = commands::get_sessions_by_date_range(&db, day(2024, 1, 1), day(2024, 1, 3))
        .unwrap();
    assert_eq!(listed.len(), 1);

    let weekly = commands::get_weekly_summary(&db, day(2024, 1, 2), day(2024, 1, 2)).unwrap();
    assert_eq!(weekly.len(), 1);
    assert_eq!(weekly[0].completed_pomodoros_count, 1);
    assert_eq!(weekly[0].completed_tasks_count, 1);
    assert_eq!(weekly[0].total_focus_minutes, 25);

    commands::delete_task(&db, task.id).unwrap();
    assert!(commands::get_task(&db, task.id).is_err());
    let in_memory = DbConnection::new_in_memory();
    assert!(commands::get_settings(&in_memory).is_err());
}
