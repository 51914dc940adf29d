use vstd::prelude::*;

use crate::errors::RepoError;
use crate::models::LogsSettings;
use std::collections::HashMap;

verus! {

/// The log-settings repository: at most one settings row per guild, created
/// and overwritten by the same atomic upsert, and read back exactly as
/// stored. Absence is surfaced as `NotFound`, never defaulted.
pub struct LogsService {
    settings: HashMap<i64, LogsSettings>,
}

impl LogsService {
    /// The settings table: guild identifier to its stored row.
    pub closed spec fn settings_table(self) -> Map<i64, LogsSettings> {
        self.settings@
    }

    /// Every stored row is keyed by its own guild identifier.
    pub closed spec fn wf(self) -> bool {
        forall|g: i64| #[trigger]
            self.settings@.contains_key(g) ==> self.settings@[g].guild_id == g
    }

    /// Opens the repository with an empty settings table.
    pub fn new() -> (s: Self)
        ensures
            s.wf(),
            s.settings_table() == Map::<i64, LogsSettings>::empty(),
    {
        LogsService { settings: HashMap::new() }
    }

    /// Inserts the row for `settings.guild_id`, or overwrites every non-key
    /// attribute of the existing one. Exactly one row for that guild remains,
    /// holding exactly the given values; other guilds are untouched.
    pub fn create_or_update_settings(&mut self, settings: LogsSettings) -> (r: Result<
        (),
        RepoError,
    >)
        requires
            old(self).wf(),
        ensures
            final(self).wf(),
            r is Ok,
            final(self).settings_table() == old(self).settings_table().insert(
                settings.guild_id,
                settings,
            ),
    {
        self.settings.insert(settings.guild_id, settings);
        Ok(())
    }

    /// Returns the stored row for `guild_id`, or `NotFound` if the guild was
    /// never upserted.
    pub fn get_settings(&self, guild_id: i64) -> (r: Result<LogsSettings, RepoError>)
        requires
            self.wf(),
        ensures
            match r {
                Ok(s) => self.settings_table().contains_key(guild_id) && s
                    == self.settings_table()[guild_id],
                Err(e) => e is NotFound && !self.settings_table().contains_key(guild_id),
            },
    {
        match self.settings.get(&guild_id) {
            Some(row) => Ok(*row),
            None => Err(RepoError::NotFound),
        }
    }
}

} // verus!
