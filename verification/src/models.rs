use vstd::prelude::*;

verus! {

/// Per-guild log configuration: one row per guild, managed by upsert.
#[derive(Clone, Copy, Debug, PartialEq, Eq, Structural)]
pub struct LogsSettings {
    pub guild_id: i64,
    pub enabled: bool,
    pub channel_id: i64,
}

/// Per-guild automoderation configuration: one row per guild, managed by
/// upsert.
#[derive(Clone, Copy, Debug, PartialEq, Eq, Structural)]
pub struct AutomodSettings {
    pub guild_id: i64,
    pub autoban_enabled: bool,
    pub autoban_threshold: i32,
    pub autokick_enabled: bool,
    pub autokick_threshold: i32,
}

/// Per-guild ticket configuration: one row per guild, managed by upsert.
#[derive(Clone, Copy, Debug, PartialEq, Eq, Structural)]
pub struct TicketsSettings {
    pub guild_id: i64,
    pub enabled: bool,
    pub channel_id: i64,
}

/// One warning issued against a user: an append-only history record.
///
/// `id` and `created_at` (a Unix timestamp in seconds) are assigned by the
/// store at insert time; `created_at` is the sole ordering key of a history.
#[derive(Debug)]
pub struct Warn {
    pub id: i32,
    pub guild_id: i64,
    pub staff_member_id: i64,
    pub target_user_id: i64,
    pub reason: String,
    pub created_at: i64,
}

/// The mathematical value of a [`Warn`]: the same fields with the reason as a
/// character sequence.
#[verifier::ext_equal]
pub ghost struct WarnV {
    pub id: i32,
    pub guild_id: i64,
    pub staff_member_id: i64,
    pub target_user_id: i64,
    pub reason: Seq<char>,
    pub created_at: i64,
}

impl View for Warn {
    type V = WarnV;

    open spec fn view(&self) -> WarnV {
        WarnV {
            id: self.id,
            guild_id: self.guild_id,
            staff_member_id: self.staff_member_id,
            target_user_id: self.target_user_id,
            reason: self.reason@,
            created_at: self.created_at,
        }
    }
}

impl Warn {
    /// Copies a stored row so it can be handed out while the table keeps its
    /// own copy.
    pub fn duplicate(&self) -> (r: Warn)
        ensures
            r@ == self@,
    {
        Warn {
            id: self.id,
            guild_id: self.guild_id,
            staff_member_id: self.staff_member_id,
            target_user_id: self.target_user_id,
            reason: self.reason.clone(),
            created_at: self.created_at,
        }
    }
}

/// One support ticket opened by a user: an append-only history record.
///
/// `id` and `created_at` (a Unix timestamp in seconds) are assigned by the
/// store at insert time; `created_at` is the sole ordering key of a history.
#[derive(Debug)]
pub struct Ticket {
    pub id: i32,
    pub guild_id: i64,
    pub author_id: i64,
    pub title: String,
    pub info: String,
    pub created_at: i64,
}

/// The mathematical value of a [`Ticket`]: the same fields with the text
/// fields as character sequences.
#[verifier::ext_equal]
pub ghost struct TicketV {
    pub id: i32,
    pub guild_id: i64,
    pub author_id: i64,
    pub title: Seq<char>,
    pub info: Seq<char>,
    pub created_at: i64,
}

impl View for Ticket {
    type V = TicketV;

    open spec fn view(&self) -> TicketV {
        TicketV {
            id: self.id,
            guild_id: self.guild_id,
            author_id: self.author_id,
            title: self.title@,
            info: self.info@,
            created_at: self.created_at,
        }
    }
}

impl Ticket {
    /// Copies a stored row so it can be handed out while the table keeps its
    /// own copy.
    pub fn duplicate(&self) -> (r: Ticket)
        ensures
            r@ == self@,
    {
        Ticket {
            id: self.id,
            guild_id: self.guild_id,
            author_id: self.author_id,
            title: self.title.clone(),
            info: self.info.clone(),
            created_at: self.created_at,
        }
    }
}

} // verus!
