use vstd::prelude::*;

use crate::errors::RepoError;
use std::collections::HashSet;

verus! {

/// The guild registry: a bare set of guild identifiers, created and deleted
/// explicitly. Both mutations are idempotent set-membership operations.
pub struct GuildService {
    guilds: HashSet<i64>,
}

impl GuildService {
    /// The set of registered guild identifiers.
    pub closed spec fn guild_set(self) -> Set<i64> {
        self.guilds@
    }

    /// Opens the registry with no guilds recorded.
    pub fn new() -> (s: Self)
        ensures
            s.guild_set() == Set::<i64>::empty(),
    {
        GuildService { guilds: HashSet::new() }
    }

    /// Ensures `guild_id` is registered. Re-creating an existing guild is a
    /// no-op success, not a conflict.
    pub fn create_guild(&mut self, guild_id: i64) -> (r: Result<(), RepoError>)
        ensures
            r is Ok,
            final(self).guild_set() == old(self).guild_set().insert(guild_id),
    {
        self.guilds.insert(guild_id);
        Ok(())
    }

    /// Ensures `guild_id` is absent. Deleting a guild that was never created
    /// is a no-op success, not a `NotFound`.
    pub fn delete_guild(&mut self, guild_id: i64) -> (r: Result<(), RepoError>)
        ensures
            r is Ok,
            final(self).guild_set() == old(self).guild_set().remove(guild_id),
    {
        self.guilds.remove(&guild_id);
        Ok(())
    }

    /// Reports whether `guild_id` is currently registered.
    pub fn guild_exists(&self, guild_id: i64) -> (b: bool)
        ensures
            b == self.guild_set().contains(guild_id),
    {
        self.guilds.contains(&guild_id)
    }

    /// The number of registered guilds.
    pub fn guild_count(&self) -> (n: usize)
        ensures
            n == self.guild_set().len(),
    {
        self.guilds.len()
    }
}

} // verus!
