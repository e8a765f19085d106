//! The entity types of the store: projects, tasks, Pomodoro sessions,
//! settings, and the derived daily summary, together with the stored row
//! forms and the session-type string codec.

use vstd::prelude::*;
use vstd::string::StringExecFns;
use crate::date::{Date, Timestamp};
use crate::error::DbError;

verus! {

/// Whether `s` equals the literal `lit`, by contents.
pub fn str_matches(s: &String, lit: &str) -> (r: bool)
    ensures
        r == (s@ == lit@),
{
    *s == lit.to_owned()
}

/// A project that groups tasks.
#[derive(Debug)]
pub struct Project {
    pub id: i64,
    pub name: String,
    pub color: Option<String>,
    pub created_at: Timestamp,
    pub updated_at: Timestamp,
}

impl Project {
    pub open spec fn wf(self) -> bool {
        self.created_at.valid() && self.updated_at.valid()
    }
}

impl Clone for Project {
    fn clone(&self) -> (r: Self)
        ensures
            r == *self,
    {
        Project {
            id: self.id,
            name: self.name.clone(),
            color: self.color.clone(),
            created_at: self.created_at,
            updated_at: self.updated_at,
        }
    }
}

/// What a caller supplies to create a project.
#[derive(Debug)]
pub struct CreateProjectInput {
    pub name: String,
    pub color: Option<String>,
}

impl Clone for CreateProjectInput {
    fn clone(&self) -> (r: Self)
        ensures
            r == *self,
    {
        CreateProjectInput { name: self.name.clone(), color: self.color.clone() }
    }
}

/// A task to accomplish, with its Pomodoro estimate and completion state.
#[derive(Debug)]
pub struct Task {
    pub id: i64,
    pub title: String,
    pub description: Option<String>,
    pub project_id: Option<i64>,
    pub estimated_pomodoros: i32,
    pub completed_pomodoros: i32,
    pub is_completed: bool,
    pub created_at: Timestamp,
    pub updated_at: Timestamp,
    pub completed_at: Option<Timestamp>,
}

impl Task {
    /// The completion timestamp is present exactly when the task is marked
    /// completed.
    pub open spec fn completion_consistent(self) -> bool {
        self.completed_at is Some <==> self.is_completed
    }

    pub open spec fn wf(self) -> bool {
        &&& self.created_at.valid()
        &&& self.updated_at.valid()
        &&& (self.completed_at matches Some(ts) ==> ts.valid())
        &&& self.completion_consistent()
        &&& self.estimated_pomodoros >= 0
        &&& self.completed_pomodoros >= 0
    }
}

impl Clone for Task {
    fn clone(&self) -> (r: Self)
        ensures
            r == *self,
    {
        Task {
            id: self.id,
            title: self.title.clone(),
            description: self.description.clone(),
            project_id: self.project_id,
            estimated_pomodoros: self.estimated_pomodoros,
            completed_pomodoros: self.completed_pomodoros,
            is_completed: self.is_completed,
            created_at: self.created_at,
            updated_at: self.updated_at,
            completed_at: self.completed_at,
        }
    }
}

/// What a caller supplies to create a task.
#[derive(Debug)]
pub struct CreateTaskInput {
    pub title: String,
    pub description: Option<String>,
    pub project_id: Option<i64>,
    pub estimated_pomodoros: i32,
}

impl Clone for CreateTaskInput {
    fn clone(&self) -> (r: Self)
        ensures
            r == *self,
    {
        CreateTaskInput {
            title: self.title.clone(),
            description: self.description.clone(),
            project_id: self.project_id,
            estimated_pomodoros: self.estimated_pomodoros,
        }
    }
}

/// What a caller supplies to replace a task's editable fields.
#[derive(Debug)]
pub struct UpdateTaskInput {
    pub title: String,
    pub description: Option<String>,
    pub project_id: Option<i64>,
    pub estimated_pomodoros: i32,
}

impl Clone for UpdateTaskInput {
    fn clone(&self) -> (r: Self)
        ensures
            r == *self,
    {
        UpdateTaskInput {
            title: self.title.clone(),
            description: self.description.clone(),
            project_id: self.project_id,
            estimated_pomodoros: self.estimated_pomodoros,
        }
    }
}

/// The kind of a Pomodoro session: a closed enumeration, persisted as text.
#[derive(Clone, Copy, PartialEq, Eq, Structural, Debug)]
pub enum SessionType {
    Work,
    ShortBreak,
    LongBreak,
}

/// The text under which each session type is persisted.
pub open spec fn spec_session_type_str(t: SessionType) -> Seq<char> {
    match t {
        SessionType::Work => "work"@,
        SessionType::ShortBreak => "short_break"@,
        SessionType::LongBreak => "long_break"@,
    }
}

/// The session type a stored text denotes, if any.
pub open spec fn spec_session_type_of(s: Seq<char>) -> Option<SessionType> {
    if s == "work"@ {
        Some(SessionType::Work)
    } else if s == "short_break"@ {
        Some(SessionType::ShortBreak)
    } else if s == "long_break"@ {
        Some(SessionType::LongBreak)
    } else {
        None
    }
}

impl SessionType {
    /// The text under which this session type is persisted.
    pub fn as_str(&self) -> (r: &'static str)
        ensures
            r@ == spec_session_type_str(*self),
    {
        match self {
            SessionType::Work => "work",
            SessionType::ShortBreak => "short_break",
            SessionType::LongBreak => "long_break",
        }
    }

    /// Parses a stored text back to the closed enumeration; any other text
    /// is rejected.
    pub fn from_str(s: &str) -> (r: Result<Self, String>)
        ensures
            (match spec_session_type_of(s@) {
                Some(t) => r == Ok::<SessionType, String>(t),
                None => r matches Err(e) && e@ == "Invalid session type: "@ + s@,
            }),
    {
        let owned = s.to_owned();
        if str_matches(&owned, "work") {
            Ok(SessionType::Work)
        } else if str_matches(&owned, "short_break") {
            Ok(SessionType::ShortBreak)
        } else if str_matches(&owned, "long_break") {
            Ok(SessionType::LongBreak)
        } else {
            Err(String::from_str("Invalid session type: ").concat(s))
        }
    }
}

/// Encoding a session type and parsing the text back returns the same type,
/// for every type of the closed enumeration.
pub proof fn lemma_session_type_round_trip(t: SessionType)
    ensures
        spec_session_type_of(spec_session_type_str(t)) == Some(t),
{
    reveal_strlit("work");
    reveal_strlit("short_break");
    reveal_strlit("long_break");
    assert("work"@.len() == 4);
    assert("short_break"@.len() == 11);
    assert("long_break"@.len() == 10);
}

/// A Pomodoro session as callers see it, with the session type decoded.
#[derive(Debug)]
pub struct PomodoroSession {
    pub id: i64,
    pub task_id: Option<i64>,
    pub started_at: Timestamp,
    pub completed_at: Option<Timestamp>,
    pub duration_minutes: i32,
    pub session_type: SessionType,
    pub interrupted: bool,
}

impl Clone for PomodoroSession {
    fn clone(&self) -> (r: Self)
        ensures
            r == *self,
    {
        PomodoroSession {
            id: self.id,
            task_id: self.task_id,
            started_at: self.started_at,
            completed_at: self.completed_at,
            duration_minutes: self.duration_minutes,
            session_type: self.session_type,
            interrupted: self.interrupted,
        }
    }
}

/// A Pomodoro session as the store keeps it: the session type stays the
/// persisted text, decoded only at the read boundary.
#[derive(Debug)]
pub struct SessionRow {
    pub id: i64,
    pub task_id: Option<i64>,
    pub started_at: Timestamp,
    pub completed_at: Option<Timestamp>,
    pub duration_minutes: i32,
    pub session_type: String,
    pub interrupted: bool,
}

impl SessionRow {
    pub open spec fn wf(self) -> bool {
        &&& self.started_at.valid()
        &&& (self.completed_at matches Some(ts) ==> ts.valid())
        &&& self.duration_minutes >= 1
    }

    /// A session is open while it has no completion timestamp.
    pub open spec fn is_open(self) -> bool {
        self.completed_at is None
    }

    /// Whether the stored session-type text belongs to the closed
    /// enumeration.
    pub open spec fn type_ok(self) -> bool {
        spec_session_type_of(self.session_type@) is Some
    }

    /// The decoded form of the row; meaningful when `type_ok` holds.
    pub open spec fn spec_decode(self) -> PomodoroSession {
        PomodoroSession {
            id: self.id,
            task_id: self.task_id,
            started_at: self.started_at,
            completed_at: self.completed_at,
            duration_minutes: self.duration_minutes,
            session_type: spec_session_type_of(self.session_type@)->Some_0,
            interrupted: self.interrupted,
        }
    }

    /// Decodes the stored row; a session-type text outside the closed
    /// enumeration is data corruption.
    pub fn decode(&self) -> (r: Result<PomodoroSession, DbError>)
        ensures
            self.type_ok() ==> r == Ok::<PomodoroSession, DbError>(self.spec_decode()),
            !self.type_ok() ==> r == Err::<PomodoroSession, DbError>(DbError::DataCorruption),
    {
        match SessionType::from_str(self.session_type.as_str()) {
            Ok(t) => Ok(
                PomodoroSession {
                    id: self.id,
                    task_id: self.task_id,
                    started_at: self.started_at,
                    completed_at: self.completed_at,
                    duration_minutes: self.duration_minutes,
                    session_type: t,
                    interrupted: self.interrupted,
                },
            ),
            Err(_) => Err(DbError::DataCorruption),
        }
    }
}

impl Clone for SessionRow {
    fn clone(&self) -> (r: Self)
        ensures
            r == *self,
    {
        SessionRow {
            id: self.id,
            task_id: self.task_id,
            started_at: self.started_at,
            completed_at: self.completed_at,
            duration_minutes: self.duration_minutes,
            session_type: self.session_type.clone(),
            interrupted: self.interrupted,
        }
    }
}

/// What a caller supplies to create a session.
#[derive(Debug)]
pub struct CreateSessionInput {
    pub task_id: Option<i64>,
    pub duration_minutes: i32,
    pub session_type: SessionType,
}

impl Clone for CreateSessionInput {
    fn clone(&self) -> (r: Self)
        ensures
            r == *self,
    {
        CreateSessionInput {
            task_id: self.task_id,
            duration_minutes: self.duration_minutes,
            session_type: self.session_type,
        }
    }
}

/// The languages the application supports.
pub open spec fn spec_language_ok(s: Seq<char>) -> bool {
    s == "en"@ || s == "fr"@ || s == "es"@ || s == "it"@ || s == "de"@
}

/// The themes the application supports.
pub open spec fn spec_theme_ok(s: Seq<char>) -> bool {
    s == "light"@ || s == "dark"@
}

/// The singleton application settings record.
#[derive(Debug)]
pub struct Settings {
    pub work_duration: i32,
    pub short_break_duration: i32,
    pub long_break_duration: i32,
    pub pomodoros_until_long_break: i32,
    pub language: String,
    pub theme: String,
    pub notification_sound: String,
    pub auto_start_breaks: bool,
    pub auto_start_pomodoros: bool,
}

impl Settings {
    /// The range and enumeration rules the store enforces on every settings
    /// write.
    pub open spec fn wf(self) -> bool {
        &&& 1 <= self.work_duration <= 180
        &&& 1 <= self.short_break_duration <= 60
        &&& 1 <= self.long_break_duration <= 60
        &&& 1 <= self.pomodoros_until_long_break <= 10
        &&& spec_language_ok(self.language@)
        &&& spec_theme_ok(self.theme@)
    }

    /// Whether every field satisfies the store's range and enumeration
    /// rules.
    pub fn check_wf(&self) -> (r: bool)
        ensures
            r == self.wf(),
    {
        1 <= self.work_duration && self.work_duration <= 180 && 1 <= self.short_break_duration
            && self.short_break_duration <= 60 && 1 <= self.long_break_duration
            && self.long_break_duration <= 60 && 1 <= self.pomodoros_until_long_break
            && self.pomodoros_until_long_break <= 10 && (str_matches(&self.language, "en")
            || str_matches(&self.language, "fr") || str_matches(&self.language, "es")
            || str_matches(&self.language, "it") || str_matches(&self.language, "de")) && (
        str_matches(&self.theme, "light") || str_matches(&self.theme, "dark"))
    }

    /// The defaults inserted by the baseline migration.
    pub fn defaults() -> (r: Settings)
        ensures
            r.work_duration == 25,
            r.short_break_duration == 5,
            r.long_break_duration == 15,
            r.pomodoros_until_long_break == 4,
            r.language@ == "en"@,
            r.theme@ == "light"@,
            r.notification_sound@ == "default"@,
            !r.auto_start_breaks,
            !r.auto_start_pomodoros,
            r.wf(),
    {
        Settings {
            work_duration: 25,
            short_break_duration: 5,
            long_break_duration: 15,
            pomodoros_until_long_break: 4,
            language: String::from_str("en"),
            theme: String::from_str("light"),
            notification_sound: String::from_str("default"),
            auto_start_breaks: false,
            auto_start_pomodoros: false,
        }
    }
}

impl Clone for Settings {
    fn clone(&self) -> (r: Self)
        ensures
            r == *self,
    {
        Settings {
            work_duration: self.work_duration,
            short_break_duration: self.short_break_duration,
            long_break_duration: self.long_break_duration,
            pomodoros_until_long_break: self.pomodoros_until_long_break,
            language: self.language.clone(),
            theme: self.theme.clone(),
            notification_sound: self.notification_sound.clone(),
            auto_start_breaks: self.auto_start_breaks,
            auto_start_pomodoros: self.auto_start_pomodoros,
        }
    }
}

/// The settings record as stored: the singleton value plus the time of its
/// last write.
#[derive(Debug)]
pub struct SettingsRow {
    pub settings: Settings,
    pub updated_at: Timestamp,
}

impl SettingsRow {
    pub open spec fn wf(self) -> bool {
        self.settings.wf() && self.updated_at.valid()
    }
}

impl Clone for SettingsRow {
    fn clone(&self) -> (r: Self)
        ensures
            r == *self,
    {
        SettingsRow { settings: self.settings.clone(), updated_at: self.updated_at }
    }
}

/// One applied schema migration: its version and when it was recorded.
#[derive(Clone, Copy, PartialEq, Eq, Structural, Debug)]
pub struct VersionRow {
    pub version: i64,
    pub applied_at: Timestamp,
}

/// A derived, non-persisted summary of one day's productivity.
#[derive(Clone, Copy, PartialEq, Eq, Structural, Debug)]
pub struct DailySummary {
    pub date: Date,
    pub completed_tasks_count: i32,
    pub completed_pomodoros_count: i32,
    pub total_focus_minutes: i32,
}

} // verus!
