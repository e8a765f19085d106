//! The settings repository: the singleton configuration row, read and
//! replaced whole.
//!
//! Every update supplies a full settings value; the range and enumeration
//! rules are enforced on the write and a violation is surfaced, never
//! clamped.  A missing singleton row means the schema itself is damaged.

use vstd::prelude::*;
use crate::date::Timestamp;
use crate::error::DbError;
use crate::models::{Settings, SettingsRow};
use crate::store::Store;

verus! {

/// The singleton settings row.  Fails only when the row is missing, which
/// indicates schema corruption.
pub fn get_settings(store: &Store) -> (r: Result<Settings, DbError>)
    ensures
        (store.settings matches Some(row) ==> r == Ok::<Settings, DbError>(row.settings)),
        store.settings is None ==> r == Err::<Settings, DbError>(DbError::DataCorruption),
{
    match &store.settings {
        Some(row) => Ok(row.settings.clone()),
        None => Err(DbError::DataCorruption),
    }
}

/// Replaces every settings field, refreshes `updated_at`, and returns the
/// stored row.  A field outside its range or enumeration is a constraint
/// violation; a missing singleton row is schema corruption.
pub fn update_settings(store: &mut Store, settings: &Settings, now: Timestamp) -> (r: Result<
    Settings,
    DbError,
>)
    requires
        old(store).wf(),
        now.valid(),
    ensures
        final(store).wf(),
        old(store).settings is None ==> r == Err::<Settings, DbError>(DbError::DataCorruption)
            && *final(store) == *old(store),
        old(store).settings is Some && !settings.wf() ==> r == Err::<Settings, DbError>(
            DbError::ConstraintViolation,
        ) && *final(store) == *old(store),
        old(store).settings is Some && settings.wf() ==> r == Ok::<Settings, DbError>(*settings)
            && final(store).settings == Some(
            SettingsRow { settings: *settings, updated_at: now },
        ),
        final(store).projects == old(store).projects,
        final(store).tasks == old(store).tasks,
        final(store).sessions == old(store).sessions,
        final(store).schema_versions == old(store).schema_versions,
        final(store).next_project_id == old(store).next_project_id,
        final(store).next_task_id == old(store).next_task_id,
        final(store).next_session_id == old(store).next_session_id,
{
    if store.settings.is_none() {
        return Err(DbError::DataCorruption);
    }
    if !settings.check_wf() {
        return Err(DbError::ConstraintViolation);
    }
    let stored = settings.clone();
    let returned = settings.clone();
    store.settings = Some(SettingsRow { settings: stored, updated_at: now });
    Ok(returned)
}

} // verus!
