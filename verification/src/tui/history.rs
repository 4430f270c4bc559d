//! History of commands typed in remote sessions.

use vstd::prelude::*;

use crate::text;

verus! {

/// Number of commands kept.
pub const MAX_HISTORY: usize = 500;

/// Number of commands a search returns.
pub const SEARCH_LIMIT: usize = 20;

/// One command typed on a server.
#[derive(Debug, Clone)]
pub struct CommandEntry {
    /// The command line.
    pub command: String,
    /// When it was typed (`YYYY-MM-DD HH:MM:SS`).
    pub timestamp: String,
    /// Name of the server it was typed on.
    pub server_name: String,
}

/// The history of commands, oldest first.
pub struct CommandHistory {
    pub entries: Vec<CommandEntry>,
}

/// Unicode lower-casing of a string (`str::to_lowercase`).
pub uninterp spec fn lowercase(s: Seq<char>) -> Seq<char>;

/// Lower-cases a string (`str::to_lowercase`).
#[verifier::external_body]
fn to_lowercase(s: &str) -> (r: String)
    ensures
        r@ == lowercase(s@),
{
    s.to_lowercase()
}

/// A command the history records: not blank.
pub open spec fn is_recordable(command: Seq<char>) -> bool {
    text::trim(command).len() > 0
}

/// Entries after recording `e`: blank commands and a repeat of the last command on the
/// same server are not recorded; beyond `MAX_HISTORY` the oldest entries go.
pub open spec fn history_after_add(entries: Seq<CommandEntry>, e: CommandEntry) -> Seq<CommandEntry> {
    if !is_recordable(e.command@) {
        entries
    } else if entries.len() > 0 && entries.last().command@ == e.command@
        && entries.last().server_name@ == e.server_name@ {
        entries
    } else {
        let all = entries.push(e);
        if all.len() > MAX_HISTORY {
            all.skip(all.len() - MAX_HISTORY)
        } else {
            all
        }
    }
}

/// The most recent entries satisfying `pred`, at most `limit`, most recent first.
pub open spec fn recent_matching(
    entries: Seq<CommandEntry>,
    pred: spec_fn(CommandEntry) -> bool,
    limit: nat,
) -> Seq<CommandEntry>
    decreases entries.len(),
{
    if entries.len() == 0 || limit == 0 {
        Seq::empty()
    } else if pred(entries.last()) {
        seq![entries.last()] + recent_matching(entries.drop_last(), pred, (limit - 1) as nat)
    } else {
        recent_matching(entries.drop_last(), pred, limit)
    }
}

/// Entries whose command contains the query, ignoring case.
pub open spec fn matches_query(query: Seq<char>) -> spec_fn(CommandEntry) -> bool {
    |e: CommandEntry| text::contains_seq(lowercase(e.command@), lowercase(query))
}

/// Every entry.
pub open spec fn any_entry() -> spec_fn(CommandEntry) -> bool {
    |e: CommandEntry| true
}

/// What a search for `query` returns: for an empty query the 20 most recent entries,
/// most recent first; otherwise the 20 most recent matches, oldest first.
pub open spec fn search_result(entries: Seq<CommandEntry>, query: Seq<char>) -> Seq<CommandEntry> {
    if query.len() == 0 {
        recent_matching(entries, any_entry(), SEARCH_LIMIT as nat)
    } else {
        recent_matching(entries, matches_query(query), SEARCH_LIMIT as nat).reverse()
    }
}

impl CommandHistory {
    /// A history holding `entries` (as read from disk), oldest first.
    pub fn new(entries: Vec<CommandEntry>) -> (h: CommandHistory)
        ensures
            h.entries@ == entries@,
    {
        CommandHistory { entries }
    }

    /// Records `command` typed on `server_name` at `timestamp`.
    ///
    /// Returns whether the history changed (and so is to be saved).
    pub fn add(&mut self, command: String, server_name: String, timestamp: String) -> (changed: bool)
        ensures
            final(self).entries@ == history_after_add(
                old(self).entries@,
                CommandEntry { command, timestamp, server_name },
            ),
            changed == (final(self).entries@ != old(self).entries@ || (is_recordable(command@)
                && !(old(self).entries@.len() > 0 && old(self).entries@.last().command@ == command@
                && old(self).entries@.last().server_name@ == server_name@))),
    {
        let cs = text::str_chars(command.as_str());
        if text::is_blank(cs.as_slice()) {
            return false;
        }
        let n = self.entries.len();
        if n > 0 {
            let last = &self.entries[n - 1];
            if text::str_eq(last.command.as_str(), command.as_str()) && text::str_eq(
                last.server_name.as_str(),
                server_name.as_str(),
            ) {
                return false;
            }
        }
        let ghost old_entries = self.entries@;
        self.entries.push(CommandEntry { command, timestamp, server_name });
        if self.entries.len() > MAX_HISTORY {
            let drain = self.entries.len() - MAX_HISTORY;
            let mut kept: Vec<CommandEntry> = Vec::new();
            let ghost all = self.entries@;
            let total = self.entries.len();
            let mut i: usize = 0;
            while i < total
                invariant
                    total == all.len(),
                    drain <= total,
                    i <= total,
                    self.entries@ == all.skip(i as int),
                    kept@ == all.subrange(drain as int, if i < drain { drain as int } else { i as int }),
                decreases total - i,
            {
                assert(self.entries@.len() > 0);
                let e = self.entries.remove(0);
                assert(e == all[i as int]);
                assert(self.entries@ =~= all.skip(i + 1));
                if i >= drain {
                    kept.push(e);
                    assert(kept@ =~= all.subrange(drain as int, i + 1));
                }
                i = i + 1;
            }
            self.entries = kept;
        }
        true
    }

    /// Searches the history (see `search_result`).
    pub fn search(&self, query: &str) -> (r: Vec<&CommandEntry>)
        ensures
            r@.map_values(|e: &CommandEntry| *e) == search_result(self.entries@, query@),
    {
        if query.is_empty() {
            return self.recent(query, false);
        }
        let found = self.recent(query, true);
        let mut r: Vec<&CommandEntry> = Vec::new();
        let mut k = found.len();
        let ghost f = found@.map_values(|e: &CommandEntry| *e);
        while k > 0
            invariant
                k <= found@.len(),
                f == found@.map_values(|e: &CommandEntry| *e),
                r@.map_values(|e: &CommandEntry| *e) == f.skip(k as int).reverse(),
            decreases k,
        {
            let ghost before = r@.map_values(|e: &CommandEntry| *e);
            r.push(found[k - 1]);
            assert(r@.map_values(|e: &CommandEntry| *e) =~= before.push(f[k - 1]));
            assert(f.skip(k - 1).reverse() =~= f.skip(k as int).reverse().push(f[k - 1]));
            k = k - 1;
        }
        assert(f.skip(0) == f);
        r
    }

    /// The most recent entries, most recent first: all (`filter` false) or those
    /// matching `query` ignoring case.
    fn recent(&self, query: &str, filter: bool) -> (r: Vec<&CommandEntry>)
        ensures
            r@.map_values(|e: &CommandEntry| *e) == recent_matching(
                self.entries@,
                if filter {
                    matches_query(query@)
                } else {
                    any_entry()
                },
                SEARCH_LIMIT as nat,
            ),
    {
        let ghost pred = if filter {
            matches_query(query@)
        } else {
            any_entry()
        };
        let ghost es = self.entries@;
        let q = to_lowercase(query);
        let qc = text::str_chars(q.as_str());
        let mut r: Vec<&CommandEntry> = Vec::new();
        let mut i = self.entries.len();
        let mut left = SEARCH_LIMIT;
        assert(es.take(es.len() as int) == es);
        while i > 0 && left > 0
            invariant
                es == self.entries@,
                i <= es.len(),
                qc@ == lowercase(query@),
                pred == (if filter {
                    matches_query(query@)
                } else {
                    any_entry()
                }),
                r@.map_values(|e: &CommandEntry| *e) + recent_matching(es.take(i as int), pred, left as nat)
                    == recent_matching(es, pred, SEARCH_LIMIT as nat),
            decreases i,
        {
            let e = &self.entries[i - 1];
            assert(es.take(i as int).last() == es[i - 1]);
            assert(es.take(i as int).drop_last() == es.take(i - 1));
            let keep = if filter {
                let lc = to_lowercase(e.command.as_str());
                let lcc = text::str_chars(lc.as_str());
                text::contains_chars(lcc.as_slice(), qc.as_slice())
            } else {
                true
            };
            assert(keep == pred(es[i - 1]));
            if keep {
                let ghost before = r@.map_values(|x: &CommandEntry| *x);
                r.push(e);
                assert(r@.map_values(|x: &CommandEntry| *x) =~= before.push(es[i - 1]));
                assert(before.push(es[i - 1]) + recent_matching(es.take(i - 1), pred, (left - 1) as nat)
                    =~= before + (seq![es[i - 1]] + recent_matching(es.take(i - 1), pred, (left - 1) as nat)));
                left = left - 1;
            }
            i = i - 1;
        }
        assert(recent_matching(es.take(i as int), pred, left as nat) =~= Seq::<CommandEntry>::empty());
        assert(r@.map_values(|x: &CommandEntry| *x) =~= recent_matching(es, pred, SEARCH_LIMIT as nat));
        r
    }

    /// Number of recorded commands.
    pub fn len(&self) -> (n: usize)
        ensures
            n == self.entries@.len(),
    {
        self.entries.len()
    }
}


/// The history never holds more than `MAX_HISTORY` entries once it holds at most that
/// many.
pub proof fn lemma_history_bounded(entries: Seq<CommandEntry>, e: CommandEntry)
    requires
        entries.len() <= MAX_HISTORY,
    ensures
        history_after_add(entries, e).len() <= MAX_HISTORY,
{
}

/// Recording the same command on the same server twice in a row records it once.
pub proof fn lemma_history_no_repeat(entries: Seq<CommandEntry>, e: CommandEntry)
    ensures
        history_after_add(history_after_add(entries, e), e) == history_after_add(entries, e),
{
    let once = history_after_add(entries, e);
    if is_recordable(e.command@) && !(entries.len() > 0 && entries.last().command@ == e.command@
        && entries.last().server_name@ == e.server_name@) {
        let all = entries.push(e);
        assert(all.last() == e);
        if all.len() > MAX_HISTORY {
            assert(once.last() == e);
        }
    }
}

/// Every entry kept in `recent_matching` order: the `m` last entries, most recent first.
proof fn lemma_recent_all(entries: Seq<CommandEntry>, limit: nat)
    ensures
        recent_matching(entries, any_entry(), limit) == Seq::new(
            if entries.len() < limit {
                entries.len()
            } else {
                limit
            },
            |i: int| entries[entries.len() - 1 - i],
        ),
    decreases entries.len(),
{
    if entries.len() > 0 && limit > 0 {
        let rest = entries.drop_last();
        lemma_recent_all(rest, (limit - 1) as nat);
        assert(recent_matching(entries, any_entry(), limit) =~= Seq::new(
            if entries.len() < limit {
                entries.len()
            } else {
                limit
            },
            |i: int| entries[entries.len() - 1 - i],
        ));
    }
}

/// A search for nothing gives the most recent entries, at most `SEARCH_LIMIT` of
/// them, newest first: the `i`-th result is the `i`-th entry counted from the end.
pub proof fn lemma_empty_search_newest_first(entries: Seq<CommandEntry>)
    ensures
        search_result(entries, Seq::empty()).len() == if entries.len() < SEARCH_LIMIT {
            entries.len()
        } else {
            SEARCH_LIMIT as nat
        },
        forall|i: int|
            0 <= i < search_result(entries, Seq::empty()).len() ==> #[trigger] search_result(
                entries,
                Seq::empty(),
            )[i] == entries[entries.len() - 1 - i],
{
    lemma_recent_all(entries, SEARCH_LIMIT as nat);
}

/// `recent_matching` keeps the last `min(limit, m)` of the `m` entries satisfying
/// `pred`, most recent first.
proof fn lemma_recent_matching_filter(
    entries: Seq<CommandEntry>,
    pred: spec_fn(CommandEntry) -> bool,
    limit: nat,
)
    ensures
        recent_matching(entries, pred, limit) == entries.filter(pred).skip(
            entries.filter(pred).len() - if entries.filter(pred).len() < limit {
                entries.filter(pred).len()
            } else {
                limit
            },
        ).reverse(),
    decreases entries.len(),
{
    reveal(Seq::filter);
    let f = entries.filter(pred);
    let m = if f.len() < limit {
        f.len()
    } else {
        limit
    };
    if entries.len() == 0 {
        assert(f.skip(f.len() - m).reverse() =~= Seq::<CommandEntry>::empty());
    } else if limit == 0 {
        assert(f.skip(f.len() - m).reverse() =~= Seq::<CommandEntry>::empty());
    } else {
        let rest = entries.drop_last();
        let g = rest.filter(pred);
        if pred(entries.last()) {
            lemma_recent_matching_filter(rest, pred, (limit - 1) as nat);
            let m1 = if g.len() < limit - 1 {
                g.len()
            } else {
                (limit - 1) as nat
            };
            assert(f == g.push(entries.last()));
            assert(m == m1 + 1);
            assert(f.skip(f.len() - m) =~= g.skip(g.len() - m1).push(entries.last()));
            assert(f.skip(f.len() - m).reverse() =~= seq![entries.last()] + g.skip(g.len() - m1).reverse());
        } else {
            lemma_recent_matching_filter(rest, pred, limit);
            assert(f == g);
        }
    }
}

/// A search for text gives the most recent entries containing it (ignoring case), at
/// most `SEARCH_LIMIT` of them, in the order they were recorded.
pub proof fn lemma_search_recent_matches(entries: Seq<CommandEntry>, query: Seq<char>)
    requires
        query.len() > 0,
    ensures
        search_result(entries, query) == entries.filter(matches_query(query)).skip(
            entries.filter(matches_query(query)).len() - if entries.filter(matches_query(query)).len()
                < SEARCH_LIMIT {
                entries.filter(matches_query(query)).len()
            } else {
                SEARCH_LIMIT as nat
            },
        ),
{
    let f = entries.filter(matches_query(query));
    lemma_recent_matching_filter(entries, matches_query(query), SEARCH_LIMIT as nat);
    let m = if f.len() < SEARCH_LIMIT {
        f.len()
    } else {
        SEARCH_LIMIT as nat
    };
    assert(f.skip(f.len() - m).reverse().reverse() =~= f.skip(f.len() - m));
}

} // verus!
