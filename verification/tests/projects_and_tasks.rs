use tomatotask::date::{Date, Timestamp};
use tomatotask::error::DbError;
use tomatotask::migrations::run_migrations;
use tomatotask::models::{CreateProjectInput, CreateTaskInput, UpdateTaskInput};
use tomatotask::projects::{
    create_project, delete_project, get_all_projects, get_project_by_id,
};
use tomatotask::store::Store;
use tomatotask::tasks::{
    create_task, delete_task, get_all_tasks, get_task_by_id, get_tasks_by_project,
    increment_completed_pomodoros, toggle_task_completion, update_task,
};

fn at(year: i32, month: i32, day: i32, second_of_day: u32) -> Timestamp {
    Timestamp { date: Date { year, month, day }, second_of_day }
}

fn fresh_store() -> Store {
    let mut store = Store::new();
    run_migrations(&mut store, at(2024, 1, 1, 0)).unwrap();
    store
}

#[test]
fn test_create_and_get_project() {
    let mut store = fresh_store();
    let input = CreateProjectInput {
        name: "Work".to_string(),
        color: Some("#FF0000".to_string()),
    };

    let project = create_project(&mut store, &input, at(2024, 1, 2, 10)).unwrap();
    assert_eq!(project.name, "Work");
    assert_eq!(project.color, Some("#FF0000".to_string()));

    let retrieved = get_project_by_id(&store, project.id).unwrap();
    assert_eq!(retrieved.name, project.name);
}

#[test]
fn test_get_all_projects() {
    let mut store = fresh_store();

    let input1 = CreateProjectInput { name: "Project 1".to_string(), color: None };
    let input2 = CreateProjectInput {
        name: "Project 2".to_string(),
        color: Some("#00FF00".to_string()),
    };

    create_project(&mut store, &input1, at(2024, 1, 2, 10)).unwrap();
    create_project(&mut store, &input2, at(2024, 1, 2, 20)).unwrap();

    let projects = get_all_projects(&store);
    assert_eq!(projects.len(), 2);
}

#[test]
fn test_projects_listed_newest_first() {
    let mut store = fresh_store();
    let older = CreateProjectInput { name: "Older".to_string(), color: None };
    let newer = CreateProjectInput { name: "Newer".to_string(), color: None };
    create_project(&mut store, &older, at(2024, 1, 2, 10)).unwrap();
    create_project(&mut store, &newer, at(2024, 1, 3, 10)).unwrap();

    let projects = get_all_projects(&store);
    assert_eq!(projects[0].name, "Newer");
    assert_eq!(projects[1].name, "Older");
}

#[test]
fn test_create_and_get_task() {
    let mut store = fresh_store();
    let input = CreateTaskInput {
        title: "Test Task".to_string(),
        description: Some("Test description".to_string()),
        project_id: None,
        estimated_pomodoros: 3,
    };

    let task = create_task(&mut store, &input, at(2024, 1, 2, 30)).unwrap();
    assert_eq!(task.title, "Test Task");
    assert_eq!(task.estimated_pomodoros, 3);

    let retrieved = get_task_by_id(&store, task.id).unwrap();
    assert_eq!(retrieved.title, task.title);
}

#[test]
fn test_toggle_completion() {
    let mut store = fresh_store();
    let input = CreateTaskInput {
        title: "Toggle Test".to_string(),
        description: None,
        project_id: None,
        estimated_pomodoros: 1,
    };

    let task = create_task(&mut store, &input, at(2024, 1, 2, 30)).unwrap();
    assert!(!task.is_completed);

    let toggled = toggle_task_completion(&mut store, task.id, at(2024, 1, 2, 40)).unwrap();
    assert!(toggled.is_completed);
    assert!(toggled.completed_at.is_some());
}

#[test]
fn test_task_lifecycle_keeps_completion_consistent() {
    let mut store = fresh_store();
    let input = CreateTaskInput {
        title: "Test".to_string(),
        description: None,
        project_id: None,
        estimated_pomodoros: 3,
    };

    let task = create_task(&mut store, &input, at(2024, 1, 2, 0)).unwrap();
    assert!(!task.is_completed);
    assert_eq!(task.completed_pomodoros, 0);
    assert!(task.completed_at.is_none());

    let done = toggle_task_completion(&mut store, task.id, at(2024, 1, 2, 50)).unwrap();
    assert!(done.is_completed);
    assert!(done.completed_at.is_some());

    let undone = toggle_task_completion(&mut store, task.id, at(2024, 1, 2, 60)).unwrap();
    assert!(!undone.is_completed);
    assert!(undone.completed_at.is_none());
    assert_eq!(undone.title, "Test");
    assert_eq!(undone.estimated_pomodoros, 3);
}

#[test]
fn test_update_task_leaves_completion_alone() {
    let mut store = fresh_store();
    let input = CreateTaskInput {
        title: "Before".to_string(),
        description: None,
        project_id: None,
        estimated_pomodoros: 1,
    };
    let task = create_task(&mut store, &input, at(2024, 1, 2, 0)).unwrap();
    toggle_task_completion(&mut store, task.id, at(2024, 1, 2, 10)).unwrap();

    let update = UpdateTaskInput {
        title: "After".to_string(),
        description: Some("changed".to_string()),
        project_id: None,
        estimated_pomodoros: 5,
    };
    let updated = update_task(&mut store, task.id, &update, at(2024, 1, 2, 20)).unwrap();

    assert_eq!(updated.title, "After");
    assert_eq!(updated.description, Some("changed".to_string()));
    assert_eq!(updated.estimated_pomodoros, 5);
    assert!(updated.is_completed);
    assert!(updated.completed_at.is_some());
}

#[test]
fn test_delete_project_detaches_tasks() {
    let mut store = fresh_store();
    let pinput = CreateProjectInput { name: "Doomed".to_string(), color: None };
    let project = create_project(&mut store, &pinput, at(2024, 1, 2, 0)).unwrap();

    let tinput = CreateTaskInput {
        title: "Attached".to_string(),
        description: None,
        project_id: Some(project.id),
        estimated_pomodoros: 2,
    };
    let task = create_task(&mut store, &tinput, at(2024, 1, 2, 10)).unwrap();
    assert_eq!(task.project_id, Some(project.id));

    delete_project(&mut store, project.id).unwrap();

    assert!(matches!(
        get_project_by_id(&store, project.id),
        Err(DbError::NotFound)
    ));
    let survivor = get_task_by_id(&store, task.id).unwrap();
    assert_eq!(survivor.title, "Attached");
    assert_eq!(survivor.project_id, None);
    assert_eq!(get_all_tasks(&store).len(), 1);
}

#[test]
fn test_delete_absent_rows_is_silent() {
    let mut store = fresh_store();
    delete_project(&mut store, 12345).unwrap();
    delete_task(&mut store, 12345).unwrap();
    assert!(get_all_projects(&store).is_empty());
    assert!(get_all_tasks(&store).is_empty());
}

#[test]
fn test_get_tasks_by_project_filters_and_orders() {
    let mut store = fresh_store();
    let pinput = CreateProjectInput { name: "P".to_string(), color: None };
    let project = create_project(&mut store, &pinput, at(2024, 1, 2, 0)).unwrap();

    let mk = |title: &str, pid: Option<i64>| CreateTaskInput {
        title: title.to_string(),
        description: None,
        project_id: pid,
        estimated_pomodoros: 1,
    };
    create_task(&mut store, &mk("in project, older", Some(project.id)), at(2024, 1, 2, 1)).unwrap();
    create_task(&mut store, &mk("loose", None), at(2024, 1, 2, 2)).unwrap();
    create_task(&mut store, &mk("in project, newer", Some(project.id)), at(2024, 1, 2, 3)).unwrap();

    let in_project = get_tasks_by_project(&store, project.id);
    assert_eq!(in_project.len(), 2);
    assert_eq!(in_project[0].title, "in project, newer");
    assert_eq!(in_project[1].title, "in project, older");
}

#[test]
fn test_create_task_rejects_bad_input() {
    let mut store = fresh_store();

    let negative = CreateTaskInput {
        title: "Bad".to_string(),
        description: None,
        project_id: None,
        estimated_pomodoros: -1,
    };
    let r = create_task(&mut store, &negative, at(2024, 1, 2, 0));
    assert_eq!(r.unwrap_err(), DbError::ConstraintViolation);

    let dangling = CreateTaskInput {
        title: "Bad".to_string(),
        description: None,
        project_id: Some(999),
        estimated_pomodoros: 1,
    };
    let r = create_task(&mut store, &dangling, at(2024, 1, 2, 0));
    assert_eq!(r.unwrap_err(), DbError::ConstraintViolation);

    assert!(get_all_tasks(&store).is_empty());
}

#[test]
fn test_get_task_not_found() {
    let store = fresh_store();
    assert_eq!(get_task_by_id(&store, 7).unwrap_err(), DbError::NotFound);
}

#[test]
fn test_increment_counter_overflow_is_storage_failure() {
    let mut store = fresh_store();
    let input = CreateTaskInput {
        title: "Full".to_string(),
        description: None,
        project_id: None,
        estimated_pomodoros: 1,
    };
    let task = create_task(&mut store, &input, at(2024, 1, 2, 0)).unwrap();
    store.tasks[0].completed_pomodoros = i32::MAX;

    let r = increment_completed_pomodoros(&mut store, task.id, at(2024, 1, 2, 10));
    assert_eq!(r.unwrap_err(), DbError::StorageFailure);
    assert_eq!(get_task_by_id(&store, task.id).unwrap().completed_pomodoros, i32::MAX);
}

#[test]
fn test_increment_absent_task_is_silent() {
    let mut store = fresh_store();
    increment_completed_pomodoros(&mut store, 42, at(2024, 1, 2, 0)).unwrap();
    assert!(get_all_tasks(&store).is_empty());
}
