//! The command log and deterministic replay engine.
//!
//! Every submitted command is applied eagerly to the current aggregate and
//! appended to the log. When a command arrives whose sort key — the pair of
//! logical timestamp and insertion sequence — precedes the newest logged
//! entry, the log is re-ordered and the aggregate is rebuilt from scratch by
//! replaying every command in sort-key order. The aggregate held by a
//! well-formed replayer therefore always equals the replay of its sorted
//! log, whatever the arrival order was.

use vstd::prelude::*;

use crate::competition::{
    build_competition_spec, comp_apply_spec, Competition, CompetitionConfiguration,
    CompetitionEvent, CompetitionV, EventV, TrackSetupV,
};
use crate::errors::TimingError;

verus! {

/// Model of one log entry.
pub struct LogEntryV {
    pub insertion_sequence: u64,
    pub event: EventV,
    pub last_applied_result: Result<(), TimingError>,
}

/// One logged command, tagged with its insertion sequence and carrying the
/// most recently computed result of applying it.
#[derive(Debug)]
pub struct LogEntry {
    pub(crate) insertion_sequence: u64,
    pub(crate) event: CompetitionEvent,
    pub(crate) last_applied_result: Result<(), TimingError>,
}

impl View for LogEntry {
    type V = LogEntryV;

    closed spec fn view(&self) -> LogEntryV {
        LogEntryV {
            insertion_sequence: self.insertion_sequence,
            event: self.event@,
            last_applied_result: self.last_applied_result,
        }
    }
}

/// The replay order: logical timestamp first, insertion sequence as the
/// tie-break, so that of two commands sharing a timestamp the one submitted
/// first wins.
pub open spec fn key_le(a: LogEntryV, b: LogEntryV) -> bool {
    a.event.time_stamp < b.event.time_stamp || (a.event.time_stamp == b.event.time_stamp
        && a.insertion_sequence <= b.insertion_sequence)
}

/// Whether a log is sorted by the replay order.
pub open spec fn log_sorted(log: Seq<LogEntryV>) -> bool {
    forall|i: int, j: int| 0 <= i < j < log.len() ==> key_le(log[i], log[j])
}

/// The commands a log carries, in log order.
pub open spec fn events_of(log: Seq<LogEntryV>) -> Seq<EventV> {
    log.map_values(|e: LogEntryV| e.event)
}

/// The aggregate state reached by applying `events` in order, starting from
/// `init`. Results are discarded; a failed command leaves the state as the
/// transition says — unchanged.
pub open spec fn replay_state(init: CompetitionV, events: Seq<EventV>) -> CompetitionV
    decreases events.len(),
{
    if events.len() == 0 {
        init
    } else {
        comp_apply_spec(replay_state(init, events.drop_last()), events.last()).0
    }
}

/// Whether every logged result is the one its command produces when the log
/// is replayed in order from `init`.
pub open spec fn results_consistent(init: CompetitionV, log: Seq<LogEntryV>) -> bool {
    forall|i: int|
        0 <= i < log.len() ==> log[i].last_applied_result == comp_apply_spec(
            replay_state(init, events_of(log).take(i)),
            log[i].event,
        ).1
}

/// Inserting anywhere into a sequence adds exactly one occurrence to its
/// multiset.
proof fn lemma_seq_insert_to_multiset<A>(s: Seq<A>, i: int, x: A)
    requires
        0 <= i <= s.len(),
    ensures
        s.insert(i, x).to_multiset() =~= s.to_multiset().insert(x),
{
    broadcast use vstd::seq_lib::group_to_multiset_ensures;
    broadcast use vstd::multiset::group_multiset_axioms;

    let t = s.insert(i, x);
    assert(t.remove(i) =~= s);
    assert(t[i] == x);
    assert(t.remove(i).to_multiset() =~= t.to_multiset().remove(x));
    assert(t.to_multiset().count(x) > 0) by {
        assert(t.contains(x));
    }
    assert forall|y: A| t.to_multiset().count(y) == s.to_multiset().insert(x).count(y) by {
        if y == x {
            assert(s.to_multiset().count(x) == t.to_multiset().remove(x).count(x));
        } else {
            assert(s.to_multiset().count(y) == t.to_multiset().remove(x).count(y));
        }
    }
}

/// Appending an entry after the whole log keeps it sorted.
proof fn lemma_sorted_push(log: Seq<LogEntryV>, entry: LogEntryV)
    requires
        log_sorted(log),
        log.len() > 0 ==> key_le(log.last(), entry),
    ensures
        log_sorted(log.push(entry)),
{
    let nl = log.push(entry);
    assert forall|i: int, j: int| 0 <= i < j < nl.len() implies key_le(nl[i], nl[j]) by {
        if j < log.len() {
        } else {
            if i < log.len() - 1 {
                assert(key_le(log[i], log[log.len() - 1]));
            }
        }
    }
}

/// Inserting an entry at the position its key belongs keeps the log sorted.
proof fn lemma_sorted_insert(log: Seq<LogEntryV>, pos: int, entry: LogEntryV)
    requires
        log_sorted(log),
        0 <= pos <= log.len(),
        forall|i: int| 0 <= i < pos ==> key_le(log[i], entry),
        forall|i: int| pos <= i < log.len() ==> !key_le(log[i], entry),
    ensures
        log_sorted(log.insert(pos, entry)),
{
    let nl = log.insert(pos, entry);
    assert forall|i: int, j: int| 0 <= i < j < nl.len() implies key_le(nl[i], nl[j]) by {
        if i < pos && j == pos {
        } else if i == pos && j > pos {
            assert(nl[j] == log[j - 1]);
            assert(!key_le(log[j - 1], entry));
        } else if i < pos && j > pos {
            assert(nl[i] == log[i] && nl[j] == log[j - 1]);
        } else if i > pos && j > pos {
            assert(nl[i] == log[i - 1] && nl[j] == log[j - 1]);
        }
    }
}

/// Sortedness depends only on timestamps and insertion sequences, so a log
/// whose entries carry the same events and sequences is sorted as well.
proof fn lemma_sorted_same_keys(a: Seq<LogEntryV>, b: Seq<LogEntryV>)
    requires
        log_sorted(a),
        a.len() == b.len(),
        forall|i: int|
            #![trigger b[i]]
            0 <= i < a.len() ==> b[i].event == a[i].event && b[i].insertion_sequence
                == a[i].insertion_sequence,
    ensures
        log_sorted(b),
{
    assert forall|i: int, j: int| 0 <= i < j < b.len() implies key_le(b[i], b[j]) by {
        assert(key_le(a[i], a[j]));
    }
}

/// Replaying one more event applies it to the replay of the rest.
proof fn lemma_replay_push(init: CompetitionV, events: Seq<EventV>, e: EventV)
    ensures
        replay_state(init, events.push(e)) == comp_apply_spec(replay_state(init, events), e).0,
{
    assert(events.push(e).drop_last() =~= events);
    assert(events.push(e).last() == e);
}

/// Appending an entry whose stored result is the one its command produces
/// on the replayed log keeps the results consistent.
proof fn lemma_results_push(init: CompetitionV, log: Seq<LogEntryV>, entry: LogEntryV)
    requires
        results_consistent(init, log),
        entry.last_applied_result == comp_apply_spec(
            replay_state(init, events_of(log)),
            entry.event,
        ).1,
    ensures
        results_consistent(init, log.push(entry)),
{
    let nl = log.push(entry);
    assert forall|i: int|
        0 <= i < nl.len() implies nl[i].last_applied_result == comp_apply_spec(
        replay_state(init, events_of(nl).take(i)),
        nl[i].event,
    ).1 by {
        if i < log.len() {
            assert(events_of(nl).take(i) =~= events_of(log).take(i));
            assert(nl[i] == log[i]);
        } else {
            assert(events_of(nl).take(i) =~= events_of(log));
        }
    }
}

/// The command log and the aggregate it materialises.
#[derive(Debug)]
pub struct Replayer {
    config: CompetitionConfiguration,
    entity: Competition,
    log: Vec<LogEntry>,
    next_sequence: u64,
}

impl Replayer {
    /// The configuration the aggregate is rebuilt from.
    pub closed spec fn config_view(&self) -> Seq<TrackSetupV> {
        self.config@
    }

    /// The log as a sequence of entry models.
    pub closed spec fn log_view(&self) -> Seq<LogEntryV> {
        self.log@.map_values(|e: LogEntry| e@)
    }

    /// The materialised aggregate.
    pub closed spec fn entity_view(&self) -> CompetitionV {
        self.entity@
    }

    /// Well-formedness: the log is sorted by the replay order, the aggregate
    /// equals the replay of the sorted log from a freshly built competition,
    /// and every logged result is consistent with that replay.
    pub open spec fn wf(&self) -> bool {
        &&& log_sorted(self.log_view())
        &&& self.entity_view() == replay_state(
            build_competition_spec(self.config_view()),
            events_of(self.log_view()),
        )
        &&& results_consistent(build_competition_spec(self.config_view()), self.log_view())
    }

    /// A replayer with an empty log over a freshly built competition.
    pub fn new(config: CompetitionConfiguration) -> (r: Replayer)
        ensures
            r.wf(),
            r.config_view() == config@,
            r.log_view() =~= Seq::<LogEntryV>::empty(),
    {
        let entity = config.build_competition();
        let r = Replayer { config, entity, log: Vec::new(), next_sequence: 0 };
        proof {
            assert(r.log_view() =~= Seq::<LogEntryV>::empty());
            assert(events_of(r.log_view()) =~= Seq::<EventV>::empty());
        }
        r
    }

    /// A replayer fed the given commands in order.
    pub fn from_commands(config: CompetitionConfiguration, commands: Vec<CompetitionEvent>) -> (r:
        Replayer)
        ensures
            r.wf(),
            r.config_view() == config@,
            events_of(r.log_view()).to_multiset() =~= commands@.map_values(
                |e: CompetitionEvent| e@,
            ).to_multiset(),
    {
        broadcast use vstd::seq_lib::group_to_multiset_ensures;

        let mut rep = Replayer::new(config);
        let n = commands.len();
        let mut i: usize = 0;
        proof {
            assert(commands@.map_values(|e: CompetitionEvent| e@).take(0)
                =~= Seq::<EventV>::empty());
        }
        while i < n
            invariant
                n == commands.len(),
                0 <= i <= n,
                rep.wf(),
                rep.config_view() == config@,
                events_of(rep.log_view()).to_multiset() =~= commands@.map_values(
                    |e: CompetitionEvent| e@,
                ).take(i as int).to_multiset(),
            decreases n - i,
        {
            let _ = rep.command(commands[i].clone());
            proof {
                broadcast use vstd::seq_lib::group_to_multiset_ensures;

                let mapped = commands@.map_values(|e: CompetitionEvent| e@);
                assert(mapped.take(i + 1) =~= mapped.take(i as int).push(mapped[i as int]));
                assert(mapped.take(i as int).push(mapped[i as int]).to_multiset()
                    =~= mapped.take(i as int).to_multiset().insert(mapped[i as int]));
            }
            i += 1;
        }
        proof {
            assert(commands@.map_values(|e: CompetitionEvent| e@).take(n as int)
                =~= commands@.map_values(|e: CompetitionEvent| e@));
        }
        rep
    }

    /// A read-only view of the materialised aggregate; never mutates.
    pub fn get(&self) -> (r: &Competition)
        ensures
            r@ == self.entity_view(),
    {
        &self.entity
    }

    /// The replay order on two entries.
    fn entry_le(a: &LogEntry, b: &LogEntry) -> (r: bool)
        ensures
            r == key_le(a@, b@),
    {
        a.event.time_stamp < b.event.time_stamp || (a.event.time_stamp == b.event.time_stamp
            && a.insertion_sequence <= b.insertion_sequence)
    }

    /// The position a late entry belongs at: the first index whose entry
    /// does not precede it.
    fn find_insert_pos(&self, entry: &LogEntry) -> (r: usize)
        requires
            log_sorted(self.log_view()),
        ensures
            0 <= r <= self.log_view().len(),
            forall|i: int| 0 <= i < r ==> key_le(self.log_view()[i], entry@),
            forall|i: int| r <= i < self.log_view().len() ==> !key_le(self.log_view()[i], entry@),
    {
        let n = self.log.len();
        let mut j: usize = 0;
        while j < n
            invariant
                n == self.log.len(),
                0 <= j <= n,
                log_sorted(self.log_view()),
                forall|i: int| 0 <= i < j ==> key_le(self.log_view()[i], entry@),
            decreases n - j,
        {
            if !Self::entry_le(&self.log[j], entry) {
                proof {
                    assert forall|i: int|
                        j <= i < self.log_view().len() implies !key_le(
                        self.log_view()[i],
                        entry@,
                    ) by {
                        if j < i {
                            assert(key_le(self.log_view()[j as int], self.log_view()[i]));
                        }
                    }
                }
                return j;
            }
            j += 1;
        }
        n
    }

    /// Rebuild the aggregate from scratch: replay every logged command in
    /// log order, overwriting each entry's stored result with the freshly
    /// recomputed one. The only path whose cost is proportional to the log.
    fn recalc(&mut self)
        ensures
            final(self).config_view() == old(self).config_view(),
            final(self).log_view().len() == old(self).log_view().len(),
            forall|i: int|
                #![trigger final(self).log_view()[i]]
                0 <= i < old(self).log_view().len() ==> {
                    &&& final(self).log_view()[i].event == old(self).log_view()[i].event
                    &&& final(self).log_view()[i].insertion_sequence == old(
                        self,
                    ).log_view()[i].insertion_sequence
                },
            final(self).entity_view() == replay_state(
                build_competition_spec(final(self).config_view()),
                events_of(final(self).log_view()),
            ),
            results_consistent(
                build_competition_spec(final(self).config_view()),
                final(self).log_view(),
            ),
    {
        let ghost init = build_competition_spec(self.config_view());
        let mut entity = self.config.build_competition();
        let mut new_log: Vec<LogEntry> = Vec::new();
        let n = self.log.len();
        let mut i: usize = 0;
        proof {
            assert(events_of(old(self).log_view()).take(0) =~= Seq::<EventV>::empty());
        }
        while i < n
            invariant
                n == self.log.len(),
                0 <= i <= n,
                self == old(self),
                entity@ == replay_state(init, events_of(self.log_view()).take(i as int)),
                init == build_competition_spec(self.config_view()),
                new_log@.len() == i,
                forall|k: int|
                    #![trigger new_log@[k]]
                    0 <= k < i ==> {
                        &&& new_log@[k]@.event == self.log_view()[k].event
                        &&& new_log@[k]@.insertion_sequence == self.log_view()[k].insertion_sequence
                        &&& new_log@[k]@.last_applied_result == comp_apply_spec(
                            replay_state(init, events_of(self.log_view()).take(k)),
                            self.log_view()[k].event,
                        ).1
                    },
            decreases n - i,
        {
            let r = entity.command(&self.log[i].event);
            let cloned = self.log[i].event.clone();
            new_log.push(
                LogEntry {
                    insertion_sequence: self.log[i].insertion_sequence,
                    event: cloned,
                    last_applied_result: r,
                },
            );
            proof {
                let evs = events_of(self.log_view());
                assert(evs.take(i + 1).drop_last() =~= evs.take(i as int));
                assert(evs.take(i + 1).last() == evs[i as int]);
            }
            i += 1;
        }
        self.log = new_log;
        self.entity = entity;
        proof {
            assert(events_of(self.log_view()) =~= events_of(old(self).log_view()));
            assert(events_of(old(self).log_view()).take(n as int) =~= events_of(
                old(self).log_view(),
            ));
            assert forall|k: int| 0 <= k < n implies events_of(self.log_view()).take(k)
                =~= events_of(old(self).log_view()).take(k) by {
                assert forall|m: int| 0 <= m < k implies events_of(self.log_view()).take(k)[m]
                    == events_of(old(self).log_view()).take(k)[m] by {}
            }
        }
    }

    /// Submit one command.
    ///
    /// The command is applied eagerly to the current aggregate and its result
    /// returned; the log gains the command under a fresh insertion sequence.
    /// If the command is in order — its sort key not preceding the newest
    /// entry's — nothing further happens; otherwise the log is re-ordered and
    /// the aggregate rebuilt, so that the final aggregate is again the replay
    /// of the sorted log.
    #[verifier::rlimit(60)]
    pub fn command(&mut self, command: CompetitionEvent) -> (r: Result<(), TimingError>)
        requires
            old(self).wf(),
        ensures
            final(self).wf(),
            final(self).config_view() == old(self).config_view(),
            events_of(final(self).log_view()).to_multiset() =~= events_of(
                old(self).log_view(),
            ).to_multiset().insert(command@),
            r == comp_apply_spec(old(self).entity_view(), command@).1,
    {
        broadcast use vstd::seq_lib::group_to_multiset_ensures;

        let ghost init = build_competition_spec(self.config_view());
        let ghost cmd_v = command@;
        let r = self.entity.command(&command);
        let entry = LogEntry {
            insertion_sequence: self.next_sequence,
            event: command,
            last_applied_result: r,
        };
        self.next_sequence = if self.next_sequence < u64::MAX {
            self.next_sequence + 1
        } else {
            u64::MAX
        };
        let len = self.log.len();
        let is_in_order = if len == 0 {
            true
        } else {
            Self::entry_le(&self.log[len - 1], &entry)
        };
        if is_in_order {
            proof {
                let oldlog = old(self).log_view();
                if oldlog.len() > 0 {
                    assert(oldlog.last() == self.log_view()[self.log_view().len() - 1]);
                }
                lemma_sorted_push(oldlog, entry@);
            }
            self.log.push(entry);
            proof {
                let oldlog = old(self).log_view();
                let init = build_competition_spec(old(self).config_view());
                assert(self.log_view() =~= oldlog.push(entry@));
                assert(events_of(self.log_view()) =~= events_of(oldlog).push(cmd_v));
                lemma_replay_push(init, events_of(oldlog), cmd_v);
                lemma_results_push(init, oldlog, entry@);
                assert(events_of(oldlog).push(cmd_v).to_multiset() =~= events_of(
                    oldlog,
                ).to_multiset().insert(cmd_v));
            }
            r
        } else {
            let pos = self.find_insert_pos(&entry);
            proof {
                let oldlog = old(self).log_view();
                lemma_sorted_insert(oldlog, pos as int, entry@);
            }
            self.log.insert(pos, entry);
            let ghost mid_log = self.log_view();
            proof {
                let oldlog = old(self).log_view();
                assert(mid_log =~= oldlog.insert(pos as int, entry@));
                assert(events_of(mid_log) =~= events_of(oldlog).insert(pos as int, cmd_v));
                lemma_seq_insert_to_multiset(events_of(oldlog), pos as int, cmd_v);
            }
            self.recalc();
            proof {
                lemma_sorted_same_keys(mid_log, self.log_view());
                assert(events_of(self.log_view()) =~= events_of(mid_log));
            }
            r
        }
    }
}

// ---------------------------------------------------------------------------
// Determinism
// ---------------------------------------------------------------------------

/// Whether the commands carry pairwise distinct logical timestamps.
pub open spec fn distinct_timestamps(events: Seq<EventV>) -> bool {
    forall|i: int, j: int|
        0 <= i < j < events.len() ==> events[i].time_stamp != events[j].time_stamp
}

/// Whether the commands are in strictly increasing timestamp order.
pub open spec fn strictly_increasing_ts(events: Seq<EventV>) -> bool {
    forall|i: int, j: int|
        0 <= i < j < events.len() ==> events[i].time_stamp < events[j].time_stamp
}

/// Two command sequences in strictly increasing timestamp order that hold
/// the same commands hold them in the same order.
proof fn lemma_strictly_sorted_unique(s1: Seq<EventV>, s2: Seq<EventV>)
    requires
        strictly_increasing_ts(s1),
        strictly_increasing_ts(s2),
        s1.to_multiset() == s2.to_multiset(),
    ensures
        s1 =~= s2,
    decreases s1.len(),
{
    broadcast use vstd::seq_lib::group_to_multiset_ensures;
    broadcast use vstd::multiset::group_multiset_axioms;

    if s1.len() == 0 {
        assert(s2.to_multiset().len() == 0);
    } else {
        assert(s1.to_multiset().len() == s1.len());
        assert(s2.to_multiset().len() == s2.len());
        assert(s2.len() == s1.len());
        assert(s1.to_multiset().contains(s1[0])) by {
            assert(s1.contains(s1[0]));
        }
        assert(s2.contains(s1[0]));
        let j = choose|j: int| 0 <= j < s2.len() && s2[j] == s1[0];
        assert(s1.contains(s2[0])) by {
            assert(s2.to_multiset().contains(s2[0])) by {
                assert(s2.contains(s2[0]));
            }
        }
        let k = choose|k: int| 0 <= k < s1.len() && s1[k] == s2[0];
        if j > 0 {
            assert(s2[0].time_stamp < s2[j].time_stamp);
            if k > 0 {
                assert(s1[0].time_stamp < s1[k].time_stamp);
                assert(false);
            } else {
                assert(s1[0] == s2[0]);
                assert(false);
            }
        }
        assert(s1[0] == s2[0]);
        assert(s1.drop_first() =~= s1.remove(0));
        assert(s2.drop_first() =~= s2.remove(0));
        assert(s1.remove(0).to_multiset() == s1.to_multiset().remove(s1[0]));
        assert(s2.remove(0).to_multiset() == s2.to_multiset().remove(s2[0]));
        lemma_strictly_sorted_unique(s1.drop_first(), s2.drop_first());
        assert forall|m: int| 0 <= m < s1.len() implies s1[m] == s2[m] by {
            if m > 0 {
                assert(s1.drop_first()[m - 1] == s2.drop_first()[m - 1]);
            }
        }
    }
}

/// A sorted log whose commands carry distinct timestamps holds them in
/// strictly increasing timestamp order.
proof fn lemma_sorted_distinct_is_strict(log: Seq<LogEntryV>)
    requires
        log_sorted(log),
        distinct_timestamps(events_of(log)),
    ensures
        strictly_increasing_ts(events_of(log)),
{
    let evs = events_of(log);
    assert forall|i: int, j: int| 0 <= i < j < evs.len() implies evs[i].time_stamp
        < evs[j].time_stamp by {
        assert(key_le(log[i], log[j]));
    }
}

/// Determinism under reordering: two well-formed replayers over the same
/// configuration whose logs hold the same commands — as a multiset of
/// timestamped commands, with pairwise distinct timestamps — hold equal
/// aggregate states, whatever order the commands arrived in.
pub proof fn lemma_deterministic_replay(r1: &Replayer, r2: &Replayer)
    requires
        r1.wf(),
        r2.wf(),
        r1.config_view() == r2.config_view(),
        events_of(r1.log_view()).to_multiset() == events_of(r2.log_view()).to_multiset(),
        distinct_timestamps(events_of(r1.log_view())),
        distinct_timestamps(events_of(r2.log_view())),
    ensures
        r1.entity_view() == r2.entity_view(),
{
    lemma_sorted_distinct_is_strict(r1.log_view());
    lemma_sorted_distinct_is_strict(r2.log_view());
    lemma_strictly_sorted_unique(events_of(r1.log_view()), events_of(r2.log_view()));
    assert(events_of(r1.log_view()) == events_of(r2.log_view()));
}

/// Every state a replay can reach keeps every track within its
/// concurrent-entrant bound.
proof fn lemma_replay_within_limits(cfg: Seq<TrackSetupV>, events: Seq<EventV>)
    ensures
        crate::competition::tracks_within_limits(
            replay_state(build_competition_spec(cfg), events),
        ),
    decreases events.len(),
{
    if events.len() == 0 {
        crate::competition::lemma_build_tracks_empty(cfg);
    } else {
        lemma_replay_within_limits(cfg, events.drop_last());
        crate::competition::lemma_apply_preserves_limits(
            replay_state(build_competition_spec(cfg), events.drop_last()),
            events.last(),
        );
    }
}

/// Overlap limit: in every aggregate state a well-formed replayer serves,
/// no track holds more running entrants than its configured bound, whatever
/// commands arrived and in whatever order.
pub proof fn lemma_overlap_limit_invariant(r: &Replayer)
    requires
        r.wf(),
    ensures
        crate::competition::tracks_within_limits(r.entity_view()),
{
    lemma_replay_within_limits(r.config_view(), events_of(r.log_view()));
}

/// Every state a replay can reach keeps track and record ids unique.
proof fn lemma_replay_ids_unique(cfg: Seq<TrackSetupV>, events: Seq<EventV>)
    ensures
        crate::competition::entry_ids_unique(
            replay_state(build_competition_spec(cfg), events).tracks,
        ),
        crate::competition::record_ids_unique(
            replay_state(build_competition_spec(cfg), events).records,
        ),
    decreases events.len(),
{
    if events.len() == 0 {
        crate::competition::lemma_build_ids_unique(cfg);
    } else {
        lemma_replay_ids_unique(cfg, events.drop_last());
        crate::competition::lemma_apply_keeps_ids_unique(
            replay_state(build_competition_spec(cfg), events.drop_last()),
            events.last(),
        );
    }
}

/// Identifier uniqueness: in every aggregate state a well-formed replayer
/// serves, no two tracks and no two records share an id, so each behaves as
/// a map keyed by its id.
pub proof fn lemma_id_uniqueness_invariant(r: &Replayer)
    requires
        r.wf(),
    ensures
        crate::competition::entry_ids_unique(r.entity_view().tracks),
        crate::competition::record_ids_unique(r.entity_view().records),
{
    lemma_replay_ids_unique(r.config_view(), events_of(r.log_view()));
}

/// Out-of-order correction: the aggregate a well-formed replayer serves is
/// always the replay, from a freshly built competition, of its full log
/// ordered by sort key — so after a late submission the snapshot equals the
/// one reached by submitting every command in timestamp order from scratch.
pub proof fn lemma_snapshot_is_sorted_replay(r: &Replayer)
    requires
        r.wf(),
    ensures
        log_sorted(r.log_view()),
        r.entity_view() == replay_state(
            build_competition_spec(r.config_view()),
            events_of(r.log_view()),
        ),
{
}

} // verus!
