use vstd::prelude::*;

use crate::errors::RepoError;
use crate::history::{
    lemma_filter_empty, lemma_filter_push, lemma_filter_remove_last_match,
    lemma_filter_remove_unmatched, lemma_filter_sorted, lemma_map_values_push,
    lemma_map_values_remove, lemma_sorted_push, lemma_sorted_remove, list_tail, sorted_by,
    HISTORY_LIMIT,
};
use crate::models::{AutomodSettings, Warn, WarnV};
use std::collections::HashMap;

verus! {

/// The view of one stored warn row.
pub open spec fn warn_view() -> spec_fn(Warn) -> WarnV {
    |w: Warn| w@
}

/// The predicate selecting the warn history of one (guild, target) pair.
pub open spec fn warn_key(guild_id: i64, target_user_id: i64) -> spec_fn(WarnV) -> bool {
    |w: WarnV| w.guild_id == guild_id && w.target_user_id == target_user_id
}

/// The ordering key of a warn history.
pub open spec fn warn_stamp() -> spec_fn(WarnV) -> i64 {
    |w: WarnV| w.created_at
}

/// The moderation repository: per-guild automoderation settings managed by
/// upsert, and an append-only warn history per (guild, target) pair, ordered
/// by `created_at` and deleted only from the newest end.
pub struct ModerationService {
    settings: HashMap<i64, AutomodSettings>,
    warns: Vec<Warn>,
    next_warn_id: i32,
    clock: i64,
}

impl ModerationService {
    /// The automod settings table: guild identifier to its stored row.
    pub closed spec fn settings_table(self) -> Map<i64, AutomodSettings> {
        self.settings@
    }

    /// The whole warn table, every guild and target interleaved, in insertion
    /// order.
    pub closed spec fn warn_table(self) -> Seq<WarnV> {
        self.warns@.map_values(warn_view())
    }

    /// The store clock: the `created_at` value the next inserted warn
    /// receives.
    pub closed spec fn clock(self) -> i64 {
        self.clock
    }

    /// The identifier the next inserted warn receives.
    pub closed spec fn next_id(self) -> i32 {
        self.next_warn_id
    }

    /// The warn history of one (guild, target) pair, oldest first.
    pub open spec fn warn_history(self, guild_id: i64, target_user_id: i64) -> Seq<WarnV> {
        self.warn_table().filter(warn_key(guild_id, target_user_id))
    }

    /// Whether the store can still assign a fresh identifier and timestamp.
    pub open spec fn has_capacity(self) -> bool {
        self.clock() < i64::MAX && self.next_id() < i32::MAX
    }

    /// Well-formedness: settings rows are keyed by their own guild, the warn
    /// table is strictly ascending in `created_at`, and every stored row is
    /// below the counters that mint identifiers and timestamps.
    pub closed spec fn wf(self) -> bool {
        &&& forall|g: i64| #[trigger]
            self.settings@.contains_key(g) ==> self.settings@[g].guild_id == g
        &&& sorted_by(self.warn_table(), warn_stamp())
        &&& forall|i: int|
            0 <= i < self.warn_table().len() ==> (#[trigger] self.warn_table()[i]).created_at
                < self.clock
        &&& forall|i: int|
            0 <= i < self.warn_table().len() ==> (#[trigger] self.warn_table()[i]).id
                < self.next_warn_id
        &&& 0 <= self.clock
        &&& 1 <= self.next_warn_id
    }

    /// Opens the repository with empty tables, the clock at zero and
    /// identifiers starting at one.
    pub fn new() -> (s: Self)
        ensures
            s.wf(),
            s.settings_table() == Map::<i64, AutomodSettings>::empty(),
            s.warn_table() == Seq::<WarnV>::empty(),
            s.clock() == 0,
            s.next_id() == 1,
            s.has_capacity(),
    {
        let s = ModerationService {
            settings: HashMap::new(),
            warns: Vec::new(),
            next_warn_id: 1,
            clock: 0,
        };
        proof {
            assert(s.warn_table() =~= Seq::<WarnV>::empty());
        }
        s
    }

    /// Inserts the row for `settings.guild_id`, or overwrites every non-key
    /// attribute of the existing one. Exactly one row for that guild remains,
    /// holding exactly the given values; other guilds and the warn table are
    /// untouched.
    pub fn create_or_update_settings(&mut self, settings: AutomodSettings) -> (r: Result<
        (),
        RepoError,
    >)
        requires
            old(self).wf(),
        ensures
            final(self).wf(),
            r is Ok,
            final(self).settings_table() == old(self).settings_table().insert(
                settings.guild_id,
                settings,
            ),
            final(self).warn_table() == old(self).warn_table(),
            final(self).clock() == old(self).clock(),
            final(self).next_id() == old(self).next_id(),
    {
        self.settings.insert(settings.guild_id, settings);
        Ok(())
    }

    /// Returns the stored settings row for `guild_id`, or `NotFound` if the
    /// guild was never upserted.
    pub fn get_settings(&self, guild_id: i64) -> (r: Result<AutomodSettings, RepoError>)
        requires
            self.wf(),
        ensures
            match r {
                Ok(s) => self.settings_table().contains_key(guild_id) && s
                    == self.settings_table()[guild_id],
                Err(e) => e is NotFound && !self.settings_table().contains_key(guild_id),
            },
    {
        match self.settings.get(&guild_id) {
            Some(row) => Ok(*row),
            None => Err(RepoError::NotFound),
        }
    }

    /// Appends one warn. The store assigns the identifier and the
    /// `created_at` stamp from its counters, so the new record sorts after
    /// every existing one; the settings table is untouched. Fails with
    /// `Internal` exactly when a counter is exhausted, leaving the store
    /// unchanged.
    pub fn create_warn(
        &mut self,
        guild_id: i64,
        staff_member_id: i64,
        target_user_id: i64,
        reason: String,
    ) -> (r: Result<(), RepoError>)
        requires
            old(self).wf(),
        ensures
            final(self).wf(),
            final(self).settings_table() == old(self).settings_table(),
            r is Ok <==> old(self).has_capacity(),
            r matches Err(e) ==> e is Internal && *final(self) == *old(self),
            old(self).has_capacity() ==> final(self).warn_table() == old(self).warn_table().push(
                (WarnV {
                    id: old(self).next_id(),
                    guild_id,
                    staff_member_id,
                    target_user_id,
                    reason: reason@,
                    created_at: old(self).clock(),
                }),
            ) && final(self).clock() == old(self).clock() + 1 && final(self).next_id() == old(
                self,
            ).next_id() + 1,
    {
        if self.clock == i64::MAX || self.next_warn_id == i32::MAX {
            return Err(RepoError::Internal("store sequence exhausted".to_string()));
        }
        let w = Warn {
            id: self.next_warn_id,
            guild_id,
            staff_member_id,
            target_user_id,
            reason,
            created_at: self.clock,
        };
        let ghost ws0 = self.warns@;
        let ghost t0 = self.warn_table();
        let ghost wv = w@;
        self.warns.push(w);
        self.next_warn_id = self.next_warn_id + 1;
        self.clock = self.clock + 1;
        proof {
            lemma_map_values_push(ws0, self.warns@[ws0.len() as int], warn_view());
            assert(self.warn_table() == t0.push(wv));
            assert(forall|i: int|
                0 <= i < t0.len() ==> #[trigger] warn_stamp()(t0[i]) < warn_stamp()(wv));
            lemma_sorted_push(t0, wv, warn_stamp());
        }
        Ok(())
    }

    /// Locates the index of the most recent record of the (guild, target)
    /// pair in the warn table, if its history is not empty.
    fn find_last_match(&self, guild_id: i64, target_user_id: i64) -> (found: Option<usize>)
        ensures
            match found {
                Some(k) => k < self.warn_table().len() && warn_key(guild_id, target_user_id)(
                    self.warn_table()[k as int],
                ) && (forall|j: int|
                    k < j < self.warn_table().len() ==> !warn_key(guild_id, target_user_id)(
                        #[trigger] self.warn_table()[j],
                    )),
                None => forall|j: int|
                    0 <= j < self.warn_table().len() ==> !warn_key(guild_id, target_user_id)(
                        #[trigger] self.warn_table()[j],
                    ),
            },
    {
        let mut found: Option<usize> = None;
        let mut i: usize = 0;
        while i < self.warns.len()
            invariant
                i <= self.warns.len(),
                match found {
                    Some(k) => k < i && warn_key(guild_id, target_user_id)(
                        self.warn_table()[k as int],
                    ) && (forall|j: int|
                        k < j < i ==> !warn_key(guild_id, target_user_id)(
                            #[trigger] self.warn_table()[j],
                        )),
                    None => forall|j: int|
                        0 <= j < i ==> !warn_key(guild_id, target_user_id)(
                            #[trigger] self.warn_table()[j],
                        ),
                },
            decreases self.warns.len() - i,
        {
            let w = &self.warns[i];
            if w.guild_id == guild_id && w.target_user_id == target_user_id {
                found = Some(i);
                assert(warn_key(guild_id, target_user_id)(self.warn_table()[i as int]));
            } else {
                assert(!warn_key(guild_id, target_user_id)(self.warn_table()[i as int]));
            }
            i = i + 1;
        }
        found
    }

    /// Returns the most recent warn of the (guild, target) pair — the record
    /// with the maximum `created_at` — or `NotFound` if its history is empty.
    pub fn get_warn(&self, guild_id: i64, target_user_id: i64) -> (r: Result<Warn, RepoError>)
        requires
            self.wf(),
        ensures
            r is Ok <==> self.warn_history(guild_id, target_user_id).len() > 0,
            r matches Ok(w) ==> w@ == self.warn_history(guild_id, target_user_id).last(),
            r matches Err(e) ==> e is NotFound,
    {
        let ghost p = warn_key(guild_id, target_user_id);
        let found = self.find_last_match(guild_id, target_user_id);
        match found {
            Some(k) => {
                proof {
                    lemma_filter_remove_last_match(self.warn_table(), k as int, p);
                }
                Ok(self.warns[k].duplicate())
            },
            None => {
                proof {
                    lemma_filter_empty(self.warn_table(), p);
                }
                Err(RepoError::NotFound)
            },
        }
    }

    /// Lists the warn history of the (guild, target) pair: up to
    /// `HISTORY_LIMIT` records, the most recent ones, ordered by `created_at`
    /// ascending. An empty history yields an empty list, not an error.
    pub fn get_warns(&self, guild_id: i64, target_user_id: i64) -> (r: Vec<Warn>)
        requires
            self.wf(),
        ensures
            r@.map_values(warn_view()) == list_tail(
                self.warn_history(guild_id, target_user_id),
                HISTORY_LIMIT as int,
            ),
    {
        let ghost p = warn_key(guild_id, target_user_id);
        let ghost t = self.warn_table();
        let mut out: Vec<Warn> = Vec::new();
        let mut i: usize = 0;
        proof {
            assert(out@.map_values(warn_view()) =~= Seq::<WarnV>::empty());
            assert(t.subrange(0, 0) =~= Seq::<WarnV>::empty());
            lemma_filter_empty(t.subrange(0, 0), p);
        }
        while i < self.warns.len()
            invariant
                i <= self.warns.len(),
                p == warn_key(guild_id, target_user_id),
                t == self.warn_table(),
                out@.map_values(warn_view()) == t.subrange(0, i as int).filter(p),
            decreases self.warns.len() - i,
        {
            let ghost pre = t.subrange(0, i as int);
            let w = &self.warns[i];
            if w.guild_id == guild_id && w.target_user_id == target_user_id {
                let ghost out0 = out@;
                out.push(self.warns[i].duplicate());
                proof {
                    lemma_map_values_push(out0, self.warns@[i as int], warn_view());
                    assert(p(t[i as int]));
                }
            } else {
                assert(!p(t[i as int]));
            }
            proof {
                assert(t.subrange(0, i + 1) =~= pre.push(t[i as int]));
                lemma_filter_push(pre, t[i as int], p);
            }
            i = i + 1;
        }
        proof {
            assert(t.subrange(0, t.len() as int) =~= t);
        }
        let ghost hist = self.warn_history(guild_id, target_user_id);
        proof {
            assert(hist.subrange(0, hist.len() as int) =~= hist);
        }
        while out.len() > HISTORY_LIMIT
            invariant
                hist == self.warn_history(guild_id, target_user_id),
                out@.len() <= hist.len(),
                out@.len() >= HISTORY_LIMIT || out@.len() == hist.len(),
                out@.map_values(warn_view()) == hist.subrange(
                    hist.len() - out@.len(),
                    hist.len() as int,
                ),
            decreases out.len(),
        {
            let ghost out0 = out@;
            let ghost n = out@.len() as int;
            out.remove(0);
            proof {
                lemma_map_values_remove(out0, 0, warn_view());
                assert(hist.subrange(hist.len() - n, hist.len() as int).remove(0) =~= hist.subrange(
                    hist.len() - (n - 1),
                    hist.len() as int,
                ));
            }
        }
        proof {
            if hist.len() <= HISTORY_LIMIT as int {
                assert(hist.subrange(hist.len() - hist.len(), hist.len() as int) =~= hist);
            }
        }
        out
    }

    /// Deletes exactly the most recent warn of the (guild, target) pair —
    /// the record with the maximum `created_at` — leaving every other
    /// history and the settings table untouched. An empty history is
    /// surfaced as `NotFound`, never a silent success, and leaves the store
    /// unchanged.
    pub fn delete_warn(&mut self, guild_id: i64, target_user_id: i64) -> (r: Result<
        (),
        RepoError,
    >)
        requires
            old(self).wf(),
        ensures
            final(self).wf(),
            final(self).settings_table() == old(self).settings_table(),
            final(self).clock() == old(self).clock(),
            final(self).next_id() == old(self).next_id(),
            r is Ok <==> old(self).warn_history(guild_id, target_user_id).len() > 0,
            r matches Ok(_) ==> {
                &&& final(self).warn_history(guild_id, target_user_id) == old(self).warn_history(
                    guild_id,
                    target_user_id,
                ).drop_last()
                &&& final(self).warn_table().len() + 1 == old(self).warn_table().len()
                &&& forall|g2: i64, t2: i64|
                    g2 != guild_id || t2 != target_user_id ==> #[trigger] final(self).warn_history(
                        g2,
                        t2,
                    ) == old(self).warn_history(g2, t2)
            },
            r matches Err(e) ==> e is NotFound && *final(self) == *old(self),
    {
        let ghost p = warn_key(guild_id, target_user_id);
        let found = self.find_last_match(guild_id, target_user_id);
        match found {
            Some(k) => {
                let ghost ws0 = self.warns@;
                let ghost t0 = self.warn_table();
                self.warns.remove(k);
                proof {
                    lemma_map_values_remove(ws0, k as int, warn_view());
                    assert(self.warn_table() == t0.remove(k as int));
                    lemma_filter_remove_last_match(t0, k as int, p);
                    assert(t0.remove(k as int).filter(p) =~= t0.filter(p).drop_last());
                    lemma_sorted_remove(t0, k as int, warn_stamp());
                    t0.remove_ensures(k as int);
                    assert forall|g2: i64, t2: i64|
                        g2 != guild_id || t2 != target_user_id implies #[trigger] self.warn_history(
                        g2,
                        t2,
                    ) == old(self).warn_history(g2, t2) by {
                        assert(!(warn_key(g2, t2)(t0[k as int])));
                        lemma_filter_remove_unmatched(t0, k as int, warn_key(g2, t2));
                    }
                }
                Ok(())
            },
            None => {
                proof {
                    lemma_filter_empty(self.warn_table(), p);
                }
                Err(RepoError::NotFound)
            },
        }
    }
}

/// Law: every warn history of a well-formed store is strictly ascending in
/// `created_at` — records created earlier list before records created later,
/// and the last record of a history carries its maximum stamp.
pub proof fn warn_history_ordered(s: ModerationService, guild_id: i64, target_user_id: i64)
    requires
        s.wf(),
    ensures
        sorted_by(s.warn_history(guild_id, target_user_id), warn_stamp()),
        forall|i: int|
            0 <= i < s.warn_history(guild_id, target_user_id).len() - 1 ==> (
            #[trigger] s.warn_history(guild_id, target_user_id)[i]).created_at < s.warn_history(
                guild_id,
                target_user_id,
            ).last().created_at,
{
    lemma_filter_sorted(s.warn_table(), warn_key(guild_id, target_user_id), warn_stamp());
    let hist = s.warn_history(guild_id, target_user_id);
    assert forall|i: int|
        0 <= i < hist.len() - 1 implies (#[trigger] hist[i]).created_at
        < hist.last().created_at by {
        assert(warn_stamp()(hist[i]) < warn_stamp()(hist[hist.len() - 1]));
    }
}

} // verus!
