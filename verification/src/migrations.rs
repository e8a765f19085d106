//! The schema migrator: forward-only, versioned, idempotent.
//!
//! The store keeps the history of applied versions; `run_migrations` reads
//! the highest one and applies every later step in ascending order,
//! recording each newly applied version as soon as it succeeds.  The
//! baseline step installs the empty tables and the default settings row.

use vstd::prelude::*;
use crate::date::Timestamp;
use crate::error::DbError;
use crate::models::{Settings, SettingsRow, VersionRow};
use crate::store::Store;

verus! {

/// The fixed defaults the baseline migration installs.
pub open spec fn spec_is_default_settings(s: Settings) -> bool {
    &&& s.work_duration == 25
    &&& s.short_break_duration == 5
    &&& s.long_break_duration == 15
    &&& s.pomodoros_until_long_break == 4
    &&& s.language@ == "en"@
    &&& s.theme@ == "light"@
    &&& s.notification_sound@ == "default"@
    &&& !s.auto_start_breaks
    &&& !s.auto_start_pomodoros
}

/// The highest applied schema version; zero while no migration has run.
pub fn get_schema_version(store: &Store) -> (r: i64)
    ensures
        r as int == store.current_version(),
{
    if store.schema_versions.len() == 0 {
        0
    } else {
        store.schema_versions[store.schema_versions.len() - 1].version
    }
}

/// Records `version` as newly applied at time `now`.
fn set_schema_version(store: &mut Store, version: i64, now: Timestamp)
    requires
        old(store).current_version() < version,
        forall|i: int|
            0 <= i < old(store).schema_versions@.len() ==> (
            #[trigger] old(store).schema_versions@[i]).version < version,
    ensures
        final(store).schema_versions@ == old(store).schema_versions@.push(
            VersionRow { version, applied_at: now },
        ),
        final(store).projects == old(store).projects,
        final(store).tasks == old(store).tasks,
        final(store).sessions == old(store).sessions,
        final(store).settings == old(store).settings,
        final(store).next_project_id == old(store).next_project_id,
        final(store).next_task_id == old(store).next_task_id,
        final(store).next_session_id == old(store).next_session_id,
{
    store.schema_versions.push(VersionRow { version, applied_at: now });
}

/// The baseline migration: the tables exist as empty collections from the
/// start, so its observable work is installing the default settings row.
fn apply_migration_001(store: &mut Store, now: Timestamp)
    ensures
        (final(store).settings matches Some(row) && spec_is_default_settings(row.settings)
            && row.updated_at == now),
        final(store).projects == old(store).projects,
        final(store).tasks == old(store).tasks,
        final(store).sessions == old(store).sessions,
        final(store).schema_versions == old(store).schema_versions,
        final(store).next_project_id == old(store).next_project_id,
        final(store).next_task_id == old(store).next_task_id,
        final(store).next_session_id == old(store).next_session_id,
{
    store.settings = Some(SettingsRow { settings: Settings::defaults(), updated_at: now });
}

/// Brings the schema to the newest version: reads the highest applied
/// version and applies every later migration in ascending order, recording
/// each one as it succeeds.  Idempotent: on a store already at the newest
/// version this is a no-op.
pub fn run_migrations(store: &mut Store, now: Timestamp) -> (r: Result<(), DbError>)
    requires
        old(store).wf(),
        now.valid(),
    ensures
        final(store).wf(),
        r == Ok::<(), DbError>(()),
        final(store).current_version() == 1 || final(store).current_version()
            == old(store).current_version(),
        old(store).current_version() >= 1 ==> *final(store) == *old(store),
        old(store).current_version() == 0 ==> final(store).schema_versions@
            == old(store).schema_versions@.push(VersionRow { version: 1, applied_at: now })
            && (final(store).settings matches Some(row) && spec_is_default_settings(row.settings)
            && row.updated_at == now) && final(store).current_version() == 1,
        final(store).projects == old(store).projects,
        final(store).tasks == old(store).tasks,
        final(store).sessions == old(store).sessions,
        final(store).next_project_id == old(store).next_project_id,
        final(store).next_task_id == old(store).next_task_id,
        final(store).next_session_id == old(store).next_session_id,
{
    let current_version = get_schema_version(store);
    if current_version < 1 {
        proof {
            if old(store).schema_versions@.len() > 0 {
                assert(old(store).schema_versions@.last().version >= 1);
                assert(false);
            }
        }
        apply_migration_001(store, now);
        set_schema_version(store, 1, now);
    }
    Ok(())
}

} // verus!
