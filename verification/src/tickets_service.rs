use vstd::prelude::*;

use crate::errors::RepoError;
use crate::history::{
    lemma_filter_empty, lemma_filter_push, lemma_filter_remove_last_match,
    lemma_filter_remove_unmatched, lemma_map_values_push, lemma_map_values_remove,
    lemma_sorted_push, lemma_sorted_remove, list_tail, sorted_by, HISTORY_LIMIT,
};
use crate::models::{Ticket, TicketV, TicketsSettings};
use std::collections::HashMap;

verus! {

/// The view of one stored ticket row.
pub open spec fn ticket_view() -> spec_fn(Ticket) -> TicketV {
    |t: Ticket| t@
}

/// The predicate selecting the ticket history of one (guild, author) pair.
pub open spec fn ticket_key(guild_id: i64, author_id: i64) -> spec_fn(TicketV) -> bool {
    |t: TicketV| t.guild_id == guild_id && t.author_id == author_id
}

/// The ordering key of a ticket history.
pub open spec fn ticket_stamp() -> spec_fn(TicketV) -> i64 {
    |t: TicketV| t.created_at
}

/// The tickets repository: per-guild ticket settings managed by upsert, and
/// an append-only ticket history per (guild, author) pair, ordered by
/// `created_at` and deleted only from the newest end.
pub struct TicketsService {
    settings: HashMap<i64, TicketsSettings>,
    tickets: Vec<Ticket>,
    next_ticket_id: i32,
    clock: i64,
}

impl TicketsService {
    /// The ticket settings table: guild identifier to its stored row.
    pub closed spec fn settings_table(self) -> Map<i64, TicketsSettings> {
        self.settings@
    }

    /// The whole ticket table, every guild and author interleaved, in
    /// insertion order.
    pub closed spec fn ticket_table(self) -> Seq<TicketV> {
        self.tickets@.map_values(ticket_view())
    }

    /// The store clock: the `created_at` value the next inserted ticket
    /// receives.
    pub closed spec fn clock(self) -> i64 {
        self.clock
    }

    /// The identifier the next inserted ticket receives.
    pub closed spec fn next_id(self) -> i32 {
        self.next_ticket_id
    }

    /// The ticket history of one (guild, author) pair, oldest first.
    pub open spec fn ticket_history(self, guild_id: i64, author_id: i64) -> Seq<TicketV> {
        self.ticket_table().filter(ticket_key(guild_id, author_id))
    }

    /// Whether the store can still assign a fresh identifier and timestamp.
    pub open spec fn has_capacity(self) -> bool {
        self.clock() < i64::MAX && self.next_id() < i32::MAX
    }

    /// Well-formedness: settings rows are keyed by their own guild, the
    /// ticket table is strictly ascending in `created_at`, and every stored
    /// row is below the counters that mint identifiers and timestamps.
    pub closed spec fn wf(self) -> bool {
        &&& forall|g: i64| #[trigger]
            self.settings@.contains_key(g) ==> self.settings@[g].guild_id == g
        &&& sorted_by(self.ticket_table(), ticket_stamp())
        &&& forall|i: int|
            0 <= i < self.ticket_table().len() ==> (#[trigger] self.ticket_table()[i]).created_at
                < self.clock
        &&& forall|i: int|
            0 <= i < self.ticket_table().len() ==> (#[trigger] self.ticket_table()[i]).id
                < self.next_ticket_id
        &&& 0 <= self.clock
        &&& 1 <= self.next_ticket_id
    }

    /// Opens the repository with empty tables, the clock at zero and
    /// identifiers starting at one.
    pub fn new() -> (s: Self)
        ensures
            s.wf(),
            s.settings_table() == Map::<i64, TicketsSettings>::empty(),
            s.ticket_table() == Seq::<TicketV>::empty(),
            s.clock() == 0,
            s.next_id() == 1,
            s.has_capacity(),
    {
        let s = TicketsService {
            settings: HashMap::new(),
            tickets: Vec::new(),
            next_ticket_id: 1,
            clock: 0,
        };
        proof {
            assert(s.ticket_table() =~= Seq::<TicketV>::empty());
        }
        s
    }

    /// Inserts the row for `settings.guild_id`, or overwrites every non-key
    /// attribute of the existing one. Exactly one row for that guild remains,
    /// holding exactly the given values; other guilds and the ticket table
    /// are untouched.
    pub fn create_or_update_settings(&mut self, settings: TicketsSettings) -> (r: Result<
        (),
        RepoError,
    >)
        requires
            old(self).wf(),
        ensures
            final(self).wf(),
            r is Ok,
            final(self).settings_table() == old(self).settings_table().insert(
                settings.guild_id,
                settings,
            ),
            final(self).ticket_table() == old(self).ticket_table(),
            final(self).clock() == old(self).clock(),
            final(self).next_id() == old(self).next_id(),
    {
        self.settings.insert(settings.guild_id, settings);
        Ok(())
    }

    /// Returns the stored settings row for `guild_id`, or `NotFound` if the
    /// guild was never upserted.
    pub fn get_settings(&self, guild_id: i64) -> (r: Result<TicketsSettings, RepoError>)
        requires
            self.wf(),
        ensures
            match r {
                Ok(s) => self.settings_table().contains_key(guild_id) && s
                    == self.settings_table()[guild_id],
                Err(e) => e is NotFound && !self.settings_table().contains_key(guild_id),
            },
    {
        match self.settings.get(&guild_id) {
            Some(row) => Ok(*row),
            None => Err(RepoError::NotFound),
        }
    }

    /// Appends one ticket. The store assigns the identifier and the
    /// `created_at` stamp from its counters, so the new record sorts after
    /// every existing one; the settings table is untouched. Fails with
    /// `Internal` exactly when a counter is exhausted, leaving the store
    /// unchanged.
    pub fn create_ticket(
        &mut self,
        guild_id: i64,
        author_id: i64,
        title: String,
        info: String,
    ) -> (r: Result<(), RepoError>)
        requires
            old(self).wf(),
        ensures
            final(self).wf(),
            final(self).settings_table() == old(self).settings_table(),
            r is Ok <==> old(self).has_capacity(),
            r matches Err(e) ==> e is Internal && *final(self) == *old(self),
            old(self).has_capacity() ==> final(self).ticket_table() == old(
                self,
            ).ticket_table().push(
                (TicketV {
                    id: old(self).next_id(),
                    guild_id,
                    author_id,
                    title: title@,
                    info: info@,
                    created_at: old(self).clock(),
                }),
            ) && final(self).clock() == old(self).clock() + 1 && final(self).next_id() == old(
                self,
            ).next_id() + 1,
    {
        if self.clock == i64::MAX || self.next_ticket_id == i32::MAX {
            return Err(RepoError::Internal("store sequence exhausted".to_string()));
        }
        let t = Ticket {
            id: self.next_ticket_id,
            guild_id,
            author_id,
            title,
            info,
            created_at: self.clock,
        };
        let ghost ts0 = self.tickets@;
        let ghost t0 = self.ticket_table();
        let ghost tv = t@;
        self.tickets.push(t);
        self.next_ticket_id = self.next_ticket_id + 1;
        self.clock = self.clock + 1;
        proof {
            lemma_map_values_push(ts0, self.tickets@[ts0.len() as int], ticket_view());
            assert(self.ticket_table() == t0.push(tv));
            assert(forall|i: int|
                0 <= i < t0.len() ==> #[trigger] ticket_stamp()(t0[i]) < ticket_stamp()(tv));
            lemma_sorted_push(t0, tv, ticket_stamp());
        }
        Ok(())
    }

    /// Locates the index of the most recent record of the (guild, author)
    /// pair in the ticket table, if its history is not empty.
    fn find_last_match(&self, guild_id: i64, author_id: i64) -> (found: Option<usize>)
        ensures
            match found {
                Some(k) => k < self.ticket_table().len() && ticket_key(guild_id, author_id)(
                    self.ticket_table()[k as int],
                ) && (forall|j: int|
                    k < j < self.ticket_table().len() ==> !ticket_key(guild_id, author_id)(
                        #[trigger] self.ticket_table()[j],
                    )),
                None => forall|j: int|
                    0 <= j < self.ticket_table().len() ==> !ticket_key(guild_id, author_id)(
                        #[trigger] self.ticket_table()[j],
                    ),
            },
    {
        let mut found: Option<usize> = None;
        let mut i: usize = 0;
        while i < self.tickets.len()
            invariant
                i <= self.tickets.len(),
                match found {
                    Some(k) => k < i && ticket_key(guild_id, author_id)(
                        self.ticket_table()[k as int],
                    ) && (forall|j: int|
                        k < j < i ==> !ticket_key(guild_id, author_id)(
                            #[trigger] self.ticket_table()[j],
                        )),
                    None => forall|j: int|
                        0 <= j < i ==> !ticket_key(guild_id, author_id)(
                            #[trigger] self.ticket_table()[j],
                        ),
                },
            decreases self.tickets.len() - i,
        {
            let t = &self.tickets[i];
            if t.guild_id == guild_id && t.author_id == author_id {
                found = Some(i);
                assert(ticket_key(guild_id, author_id)(self.ticket_table()[i as int]));
            } else {
                assert(!ticket_key(guild_id, author_id)(self.ticket_table()[i as int]));
            }
            i = i + 1;
        }
        found
    }

    /// Returns the most recent ticket of the (guild, author) pair — the
    /// record with the maximum `created_at` — or `NotFound` if its history
    /// is empty.
    pub fn get_ticket(&self, guild_id: i64, author_id: i64) -> (r: Result<Ticket, RepoError>)
        requires
            self.wf(),
        ensures
            r is Ok <==> self.ticket_history(guild_id, author_id).len() > 0,
            r matches Ok(t) ==> t@ == self.ticket_history(guild_id, author_id).last(),
            r matches Err(e) ==> e is NotFound,
    {
        let ghost p = ticket_key(guild_id, author_id);
        let found = self.find_last_match(guild_id, author_id);
        match found {
            Some(k) => {
                proof {
                    lemma_filter_remove_last_match(self.ticket_table(), k as int, p);
                }
                Ok(self.tickets[k].duplicate())
            },
            None => {
                proof {
                    lemma_filter_empty(self.ticket_table(), p);
                }
                Err(RepoError::NotFound)
            },
        }
    }

    /// Lists the ticket history of the (guild, author) pair: up to
    /// `HISTORY_LIMIT` records, the most recent ones, ordered by
    /// `created_at` ascending. An empty history yields an empty list, not an
    /// error.
    pub fn get_tickets(&self, guild_id: i64, author_id: i64) -> (r: Vec<Ticket>)
        requires
            self.wf(),
        ensures
            r@.map_values(ticket_view()) == list_tail(
                self.ticket_history(guild_id, author_id),
                HISTORY_LIMIT as int,
            ),
    {
        let ghost p = ticket_key(guild_id, author_id);
        let ghost t = self.ticket_table();
        let mut out: Vec<Ticket> = Vec::new();
        let mut i: usize = 0;
        proof {
            assert(out@.map_values(ticket_view()) =~= Seq::<TicketV>::empty());
            assert(t.subrange(0, 0) =~= Seq::<TicketV>::empty());
            lemma_filter_empty(t.subrange(0, 0), p);
        }
        while i < self.tickets.len()
            invariant
                i <= self.tickets.len(),
                p == ticket_key(guild_id, author_id),
                t == self.ticket_table(),
                out@.map_values(ticket_view()) == t.subrange(0, i as int).filter(p),
            decreases self.tickets.len() - i,
        {
            let ghost pre = t.subrange(0, i as int);
            let w = &self.tickets[i];
            if w.guild_id == guild_id && w.author_id == author_id {
                let ghost out0 = out@;
                out.push(self.tickets[i].duplicate());
                proof {
                    lemma_map_values_push(out0, self.tickets@[i as int], ticket_view());
                    assert(p(t[i as int]));
                }
            } else {
                assert(!p(t[i as int]));
            }
            proof {
                assert(t.subrange(0, i + 1) =~= pre.push(t[i as int]));
                lemma_filter_push(pre, t[i as int], p);
            }
            i = i + 1;
        }
        proof {
            assert(t.subrange(0, t.len() as int) =~= t);
        }
        let ghost hist = self.ticket_history(guild_id, author_id);
        proof {
            assert(hist.subrange(0, hist.len() as int) =~= hist);
        }
        while out.len() > HISTORY_LIMIT
            invariant
                hist == self.ticket_history(guild_id, author_id),
                out@.len() <= hist.len(),
                out@.len() >= HISTORY_LIMIT || out@.len() == hist.len(),
                out@.map_values(ticket_view()) == hist.subrange(
                    hist.len() - out@.len(),
                    hist.len() as int,
                ),
            decreases out.len(),
        {
            let ghost out0 = out@;
            let ghost n = out@.len() as int;
            out.remove(0);
            proof {
                lemma_map_values_remove(out0, 0, ticket_view());
                assert(hist.subrange(hist.len() - n, hist.len() as int).remove(0) =~= hist.subrange(
                    hist.len() - (n - 1),
                    hist.len() as int,
                ));
            }
        }
        proof {
            if hist.len() <= HISTORY_LIMIT as int {
                assert(hist.subrange(hist.len() - hist.len(), hist.len() as int) =~= hist);
            }
        }
        out
    }

    /// Deletes exactly the most recent ticket of the (guild, author) pair —
    /// the record with the maximum `created_at` — leaving every other
    /// history and the settings table untouched. An empty history is
    /// surfaced as `NotFound`, never a silent success, and leaves the store
    /// unchanged.
    pub fn delete_ticket(&mut self, guild_id: i64, author_id: i64) -> (r: Result<(), RepoError>)
        requires
            old(self).wf(),
        ensures
            final(self).wf(),
            final(self).settings_table() == old(self).settings_table(),
            final(self).clock() == old(self).clock(),
            final(self).next_id() == old(self).next_id(),
            r is Ok <==> old(self).ticket_history(guild_id, author_id).len() > 0,
            r matches Ok(_) ==> {
                &&& final(self).ticket_history(guild_id, author_id) == old(self).ticket_history(
                    guild_id,
                    author_id,
                ).drop_last()
                &&& final(self).ticket_table().len() + 1 == old(self).ticket_table().len()
                &&& forall|g2: i64, a2: i64|
                    g2 != guild_id || a2 != author_id ==> #[trigger] final(self).ticket_history(
                        g2,
                        a2,
                    ) == old(self).ticket_history(g2, a2)
            },
            r matches Err(e) ==> e is NotFound && *final(self) == *old(self),
    {
        let ghost p = ticket_key(guild_id, author_id);
        let found = self.find_last_match(guild_id, author_id);
        match found {
            Some(k) => {
                let ghost ts0 = self.tickets@;
                let ghost t0 = self.ticket_table();
                self.tickets.remove(k);
                proof {
                    lemma_map_values_remove(ts0, k as int, ticket_view());
                    assert(self.ticket_table() == t0.remove(k as int));
                    lemma_filter_remove_last_match(t0, k as int, p);
                    assert(t0.remove(k as int).filter(p) =~= t0.filter(p).drop_last());
                    lemma_sorted_remove(t0, k as int, ticket_stamp());
                    t0.remove_ensures(k as int);
                    assert forall|g2: i64, a2: i64|
                        g2 != guild_id || a2 != author_id implies #[trigger] self.ticket_history(
                        g2,
                        a2,
                    ) == old(self).ticket_history(g2, a2) by {
                        assert(!(ticket_key(g2, a2)(t0[k as int])));
                        lemma_filter_remove_unmatched(t0, k as int, ticket_key(g2, a2));
                    }
                }
                Ok(())
            },
            None => {
                proof {
                    lemma_filter_empty(self.ticket_table(), p);
                }
                Err(RepoError::NotFound)
            },
        }
    }
}

/// Law: every ticket history of a well-formed store is strictly ascending in
/// `created_at` — records created earlier list before records created later,
/// and the last record of a history carries its maximum stamp.
pub proof fn ticket_history_ordered(s: TicketsService, guild_id: i64, author_id: i64)
    requires
        s.wf(),
    ensures
        sorted_by(s.ticket_history(guild_id, author_id), ticket_stamp()),
        forall|i: int|
            0 <= i < s.ticket_history(guild_id, author_id).len() - 1 ==> (
            #[trigger] s.ticket_history(guild_id, author_id)[i]).created_at < s.ticket_history(
                guild_id,
                author_id,
            ).last().created_at,
{
    crate::history::lemma_filter_sorted(
        s.ticket_table(),
        ticket_key(guild_id, author_id),
        ticket_stamp(),
    );
    let hist = s.ticket_history(guild_id, author_id);
    assert forall|i: int|
        0 <= i < hist.len() - 1 implies (#[trigger] hist[i]).created_at
        < hist.last().created_at by {
        assert(ticket_stamp()(hist[i]) < ticket_stamp()(hist[hist.len() - 1]));
    }
}

} // verus!
