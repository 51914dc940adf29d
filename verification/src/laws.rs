use vstd::prelude::*;

verus! {

/// Law: upserting the same settings row twice leaves exactly the table that
/// one upsert leaves, and reading the guild back returns exactly that row.
///
/// `create_or_update_settings` ensures the table becomes
/// `old.insert(guild_id, row)`, and `get_settings` returns `table[guild_id]`,
/// so this covers calling the upsert twice with the same input.
pub proof fn upsert_idempotent<V>(table: Map<i64, V>, guild_id: i64, row: V)
    ensures
        table.insert(guild_id, row).insert(guild_id, row) == table.insert(guild_id, row),
        table.insert(guild_id, row).contains_key(guild_id),
        table.insert(guild_id, row)[guild_id] == row,
{
    assert(table.insert(guild_id, row).insert(guild_id, row) =~= table.insert(guild_id, row));
}

/// Law: a later upsert for the same guild overwrites the earlier one whole —
/// reading the guild back returns the second row, never a merge — and other
/// guilds keep their rows.
pub proof fn upsert_overwrite<V>(table: Map<i64, V>, guild_id: i64, first: V, second: V)
    ensures
        table.insert(guild_id, first).insert(guild_id, second) == table.insert(guild_id, second),
        table.insert(guild_id, first).insert(guild_id, second)[guild_id] == second,
        forall|g: i64|
            g != guild_id && table.contains_key(g) ==> table.insert(guild_id, first).insert(
                guild_id,
                second,
            )[g] == #[trigger] table[g],
{
    assert(table.insert(guild_id, first).insert(guild_id, second) =~= table.insert(
        guild_id,
        second,
    ));
}

/// Law: creating a guild twice leaves exactly the registry that one creation
/// leaves — the guild is present once, as set membership.
///
/// `create_guild` ensures the registry becomes `old.insert(guild_id)` and
/// always succeeds, so this covers calling it twice in a row.
pub proof fn create_guild_idempotent(guilds: Set<i64>, guild_id: i64)
    ensures
        guilds.insert(guild_id).insert(guild_id) == guilds.insert(guild_id),
        guilds.insert(guild_id).contains(guild_id),
{
    assert(guilds.insert(guild_id).insert(guild_id) =~= guilds.insert(guild_id));
}

/// Law: deleting a guild is idempotent — deleting an absent guild changes
/// nothing, and after a deletion the guild is absent.
///
/// `delete_guild` ensures the registry becomes `old.remove(guild_id)` and
/// always succeeds, so deleting a guild that was never created is a no-op
/// success.
pub proof fn delete_guild_idempotent(guilds: Set<i64>, guild_id: i64)
    ensures
        guilds.remove(guild_id).remove(guild_id) == guilds.remove(guild_id),
        !guilds.remove(guild_id).contains(guild_id),
        !guilds.contains(guild_id) ==> guilds.remove(guild_id) == guilds,
{
    assert(guilds.remove(guild_id).remove(guild_id) =~= guilds.remove(guild_id));
    if !guilds.contains(guild_id) {
        assert(guilds.remove(guild_id) =~= guilds);
    }
}

} // verus!
