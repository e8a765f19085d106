use tomatotask::date::{Date, Timestamp};
use tomatotask::error::DbError;
use tomatotask::migrations::{get_schema_version, run_migrations};
use tomatotask::settings::{get_settings, update_settings};
use tomatotask::store::Store;

fn clock(year: i32, month: i32, day: i32, second_of_day: u32) -> Timestamp {
    Timestamp { date: Date { year, month, day }, second_of_day }
}

fn migrated_store() -> Store {
    let mut store = Store::new();
    run_migrations(&mut store, clock(2024, 1, 1, 0)).unwrap();
    store
}

#[test]
fn test_migrations_run_successfully() {
    let mut store = Store::new();
    run_migrations(&mut store, clock(2024, 1, 1, 0)).unwrap();

    assert_eq!(get_schema_version(&store), 1);
    assert!(store.settings.is_some());
    assert!(store.projects.is_empty());
    assert!(store.tasks.is_empty());
    assert!(store.sessions.is_empty());
}

#[test]
fn test_default_settings_created() {
    let store = migrated_store();

    let work_duration = get_settings(&store).unwrap().work_duration;

    assert_eq!(work_duration, 25);
}

#[test]
fn test_get_default_settings() {
    let store = migrated_store();
    let settings = get_settings(&store).unwrap();

    assert_eq!(settings.work_duration, 25);
    assert_eq!(settings.short_break_duration, 5);
    assert_eq!(settings.long_break_duration, 15);
    assert_eq!(settings.language, "en");
    assert_eq!(settings.theme, "light");
}

#[test]
fn test_update_settings() {
    let mut store = migrated_store();

    let mut settings = get_settings(&store).unwrap();
    settings.work_duration = 30;
    settings.language = "fr".to_string();
    settings.theme = "dark".to_string();

    let updated = update_settings(&mut store, &settings, clock(2024, 1, 2, 60)).unwrap();
    assert_eq!(updated.work_duration, 30);
    assert_eq!(updated.language, "fr");
    assert_eq!(updated.theme, "dark");
}

#[test]
fn test_migrations_are_idempotent() {
    let mut store = migrated_store();
    let settings_before = get_settings(&store).unwrap();

    run_migrations(&mut store, clock(2025, 6, 7, 123)).unwrap();

    assert_eq!(get_schema_version(&store), 1);
    let settings_after = get_settings(&store).unwrap();
    assert_eq!(settings_after.work_duration, settings_before.work_duration);
    assert_eq!(settings_after.language, settings_before.language);
}

#[test]
fn test_update_settings_untouched_fields_survive() {
    let mut store = migrated_store();

    let mut settings = get_settings(&store).unwrap();
    settings.work_duration = 30;
    settings.language = "fr".to_string();
    update_settings(&mut store, &settings, clock(2024, 3, 4, 7)).unwrap();

    let read_back = get_settings(&store).unwrap();
    assert_eq!(read_back.work_duration, 30);
    assert_eq!(read_back.language, "fr");
    assert_eq!(read_back.short_break_duration, 5);
    assert_eq!(read_back.long_break_duration, 15);
    assert_eq!(read_back.pomodoros_until_long_break, 4);
    assert_eq!(read_back.theme, "light");
    assert_eq!(read_back.notification_sound, "default");
    assert!(!read_back.auto_start_breaks);
    assert!(!read_back.auto_start_pomodoros);
}

#[test]
fn test_update_settings_rejects_out_of_range() {
    let mut store = migrated_store();

    let mut settings = get_settings(&store).unwrap();
    settings.work_duration = 200;
    let r = update_settings(&mut store, &settings, clock(2024, 1, 2, 0));
    assert_eq!(r.unwrap_err(), DbError::ConstraintViolation);

    let mut settings = get_settings(&store).unwrap();
    settings.theme = "sepia".to_string();
    let r = update_settings(&mut store, &settings, clock(2024, 1, 2, 0));
    assert_eq!(r.unwrap_err(), DbError::ConstraintViolation);

    let mut settings = get_settings(&store).unwrap();
    settings.language = "xx".to_string();
    let r = update_settings(&mut store, &settings, clock(2024, 1, 2, 0));
    assert_eq!(r.unwrap_err(), DbError::ConstraintViolation);

    assert_eq!(get_settings(&store).unwrap().work_duration, 25);
}

#[test]
fn test_get_settings_before_migration_is_corruption() {
    let store = Store::new();
    assert_eq!(get_settings(&store).unwrap_err(), DbError::DataCorruption);
}

#[test]
fn test_update_settings_accepts_boundary_values() {
    let mut store = migrated_store();

    let mut settings = get_settings(&store).unwrap();
    settings.work_duration = 180;
    settings.short_break_duration = 60;
    settings.long_break_duration = 60;
    settings.pomodoros_until_long_break = 10;
    let updated = update_settings(&mut store, &settings, clock(2024, 1, 2, 0)).unwrap();
    assert_eq!(updated.work_duration, 180);
    assert_eq!(updated.pomodoros_until_long_break, 10);

    let mut settings = get_settings(&store).unwrap();
    settings.work_duration = 0;
    let r = update_settings(&mut store, &settings, clock(2024, 1, 2, 0));
    assert_eq!(r.unwrap_err(), DbError::ConstraintViolation);
}
