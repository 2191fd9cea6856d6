//! The single mutable aggregate: all tracks plus the map of records, with
//! the command vocabulary that drives it.
//!
//! Every command is routed to the addressed track or record; a missing key
//! fails the command and leaves the aggregate untouched. Terminal events
//! insert records; record commands overwrite single fields in place.

use vstd::prelude::*;

use crate::errors::TimingError;
use crate::ids::CompetitionEntryId;
use crate::record::{Record, RecordState, RecordV};
use crate::track::{
    track_bump_spec, track_red_flag_spec, track_register_spec, track_set_record_type_spec,
    track_start_spec, track_terminate_spec, Track, TrackV,
};

verus! {

// ---------------------------------------------------------------------------
// Configuration
// ---------------------------------------------------------------------------

/// Per-track configuration: the concurrent-entrant bound.
#[derive(Clone, Copy, Debug, PartialEq, Eq, Structural)]
pub struct CompetitionConfigurationTrack {
    pub overlap_limit: u32,
}

/// Model of one configured track.
pub struct TrackSetupV {
    pub id: Seq<char>,
    pub overlap_limit: u32,
}

/// One configured track: its id and its bound.
#[derive(Debug)]
pub(crate) struct TrackSetup {
    pub(crate) id: String,
    pub(crate) config: CompetitionConfigurationTrack,
}

/// The configuration a competition is built from: an ordered list of track
/// ids with their bounds; a repeated id overwrites the earlier entry.
#[derive(Debug)]
pub struct CompetitionConfiguration {
    pub(crate) tracks: Vec<TrackSetup>,
}

impl View for CompetitionConfiguration {
    type V = Seq<TrackSetupV>;

    closed spec fn view(&self) -> Seq<TrackSetupV> {
        self.tracks@.map_values(
            |t: TrackSetup| TrackSetupV { id: t.id@, overlap_limit: t.config.overlap_limit },
        )
    }
}

impl Clone for CompetitionConfiguration {
    fn clone(&self) -> (r: Self)
        ensures
            r@ == self@,
    {
        let mut tracks: Vec<TrackSetup> = Vec::new();
        let n = self.tracks.len();
        let mut i: usize = 0;
        while i < n
            invariant
                n == self.tracks.len(),
                0 <= i <= n,
                tracks@.len() == i,
                forall|j: int| 0 <= j < i ==> #[trigger] tracks@[j].id@ == self.tracks@[j].id@
                    && tracks@[j].config == self.tracks@[j].config,
            decreases n - i,
        {
            tracks.push(
                TrackSetup { id: self.tracks[i].id.clone(), config: self.tracks[i].config },
            );
            i += 1;
        }
        let r = CompetitionConfiguration { tracks };
        proof {
            assert(r@ =~= self@);
        }
        r
    }
}

// ---------------------------------------------------------------------------
// Aggregate state and lookup
// ---------------------------------------------------------------------------

/// Model of one track under its id.
pub struct TrackEntryV {
    pub id: Seq<char>,
    pub track: TrackV,
}

/// One track under its id.
#[derive(Debug)]
pub struct TrackSlot {
    pub(crate) id: String,
    pub(crate) track: Track,
}

impl View for TrackSlot {
    type V = TrackEntryV;

    closed spec fn view(&self) -> TrackEntryV {
        TrackEntryV { id: self.id@, track: self.track@ }
    }
}

/// Model of the aggregate: tracks and records, each keyed by id with the
/// first occurrence authoritative (ids are kept unique by construction).
pub struct CompetitionV {
    pub tracks: Seq<TrackEntryV>,
    pub records: Seq<RecordV>,
}

/// The single mutable aggregate.
#[derive(Debug)]
pub struct Competition {
    pub(crate) tracks: Vec<TrackSlot>,
    pub(crate) records: Vec<Record>,
}

impl View for Competition {
    type V = CompetitionV;

    closed spec fn view(&self) -> CompetitionV {
        CompetitionV {
            tracks: self.tracks@.map_values(|s: TrackSlot| s@),
            records: self.records@.map_values(|r: Record| r@),
        }
    }
}

/// The first index of a track entry with the given id, if any.
pub open spec fn find_track(s: Seq<TrackEntryV>, id: Seq<char>) -> Option<int>
    decreases s.len(),
{
    if s.len() == 0 {
        None
    } else if s[0].id == id {
        Some(0)
    } else {
        match find_track(s.drop_first(), id) {
            Some(i) => Some(i + 1),
            None => None,
        }
    }
}

/// `find_track` returns the first matching index, or rules a match out.
pub proof fn lemma_find_track(s: Seq<TrackEntryV>, id: Seq<char>)
    ensures
        match find_track(s, id) {
            Some(i) => 0 <= i < s.len() && s[i].id == id && (forall|j: int|
                0 <= j < i ==> s[j].id != id),
            None => forall|j: int| 0 <= j < s.len() ==> s[j].id != id,
        },
    decreases s.len(),
{
    if s.len() != 0 && s[0].id != id {
        lemma_find_track(s.drop_first(), id);
        assert forall|j: int| 1 <= j < s.len() implies s.drop_first()[j - 1] == s[j] by {}
    }
}

/// The first index of a record with the given id, if any.
pub open spec fn find_record(s: Seq<RecordV>, id: Seq<char>) -> Option<int>
    decreases s.len(),
{
    if s.len() == 0 {
        None
    } else if s[0].id == id {
        Some(0)
    } else {
        match find_record(s.drop_first(), id) {
            Some(i) => Some(i + 1),
            None => None,
        }
    }
}

/// `find_record` returns the first matching index, or rules a match out.
pub proof fn lemma_find_record(s: Seq<RecordV>, id: Seq<char>)
    ensures
        match find_record(s, id) {
            Some(i) => 0 <= i < s.len() && s[i].id == id && (forall|j: int|
                0 <= j < i ==> s[j].id != id),
            None => forall|j: int| 0 <= j < s.len() ==> s[j].id != id,
        },
    decreases s.len(),
{
    if s.len() != 0 && s[0].id != id {
        lemma_find_record(s.drop_first(), id);
        assert forall|j: int| 1 <= j < s.len() implies s.drop_first()[j - 1] == s[j] by {}
    }
}

// ---------------------------------------------------------------------------
// Building a competition from configuration
// ---------------------------------------------------------------------------

/// A fresh track built from a configured bound.
pub open spec fn fresh_track(overlap_limit: u32) -> TrackV {
    TrackV {
        pending_car: None,
        running_cars: Seq::empty(),
        overlap_limit,
        record_type: "Free"@,
    }
}

/// A track entry put under its id: an existing entry with the id is
/// overwritten in place, otherwise the entry is appended.
pub open spec fn upsert_track(s: Seq<TrackEntryV>, e: TrackEntryV) -> Seq<TrackEntryV> {
    match find_track(s, e.id) {
        Some(i) => s.update(i, e),
        None => s.push(e),
    }
}

/// The tracks a configuration builds: entries in order, a repeated id
/// overwriting the earlier one.
pub open spec fn build_tracks_spec(cfg: Seq<TrackSetupV>) -> Seq<TrackEntryV>
    decreases cfg.len(),
{
    if cfg.len() == 0 {
        Seq::empty()
    } else {
        upsert_track(
            build_tracks_spec(cfg.drop_last()),
            TrackEntryV { id: cfg.last().id, track: fresh_track(cfg.last().overlap_limit) },
        )
    }
}

/// The competition a configuration builds: its tracks and no records.
pub open spec fn build_competition_spec(cfg: Seq<TrackSetupV>) -> CompetitionV {
    CompetitionV { tracks: build_tracks_spec(cfg), records: Seq::empty() }
}

impl CompetitionConfiguration {
    /// An empty configuration.
    pub fn new() -> (r: CompetitionConfiguration)
        ensures
            r@ =~= Seq::<TrackSetupV>::empty(),
    {
        CompetitionConfiguration { tracks: Vec::new() }
    }

    /// Append one configured track.
    pub fn add_track(&mut self, id: String, config: CompetitionConfigurationTrack)
        ensures
            final(self)@ =~= old(self)@.push(
                TrackSetupV { id: id@, overlap_limit: config.overlap_limit },
            ),
    {
        self.tracks.push(TrackSetup { id, config });
    }

    /// Build a fresh competition: one fresh track per configured entry, no
    /// records.
    pub fn build_competition(&self) -> (c: Competition)
        ensures
            c@ == build_competition_spec(self@),
    {
        let mut comp = Competition { tracks: Vec::new(), records: Vec::new() };
        proof {
            assert(comp@.tracks =~= build_tracks_spec(self@.take(0)));
            assert(comp@.records =~= Seq::<RecordV>::empty());
        }
        let n = self.tracks.len();
        let mut i: usize = 0;
        while i < n
            invariant
                n == self.tracks.len(),
                0 <= i <= n,
                comp@.tracks =~= build_tracks_spec(self@.take(i as int)),
                comp@.records =~= Seq::<RecordV>::empty(),
            decreases n - i,
        {
            let slot = TrackSlot {
                id: self.tracks[i].id.clone(),
                track: Track::new(self.tracks[i].config.overlap_limit),
            };
            comp.upsert_track_slot(slot);
            proof {
                assert(self@.take(i + 1).drop_last() =~= self@.take(i as int));
                assert(self@.take(i + 1).last() == self@[i as int]);
            }
            i += 1;
        }
        proof {
            assert(self@.take(n as int) =~= self@);
        }
        comp
    }
}

impl Competition {
    /// Put a track slot under its id: overwrite the first entry with the id,
    /// else append.
    fn upsert_track_slot(&mut self, slot: TrackSlot)
        ensures
            final(self)@.tracks =~= upsert_track(old(self)@.tracks, slot@),
            final(self)@.records =~= old(self)@.records,
    {
        let i = match self.find_track_index(&slot.id) {
            Some(i) => i,
            None => {
                self.tracks.push(slot);
                proof {
                    lemma_find_track(old(self)@.tracks, slot@.id);
                }
                return ;
            },
        };
        proof {
            lemma_find_track(old(self)@.tracks, slot@.id);
        }
        let _old_slot = self.tracks.remove(i);
        self.tracks.insert(i, slot);
        proof {
            assert(self@.tracks =~= old(self)@.tracks.update(i as int, slot@));
        }
    }

    /// The first index of the track with the given id.
    fn find_track_index(&self, id: &String) -> (r: Option<usize>)
        ensures
            match r {
                Some(i) => find_track(self@.tracks, id@) == Some(i as int),
                None => find_track(self@.tracks, id@) is None,
            },
    {
        let n = self.tracks.len();
        let mut i: usize = 0;
        while i < n
            invariant
                n == self.tracks.len(),
                0 <= i <= n,
                forall|j: int| 0 <= j < i ==> self@.tracks[j].id != id@,
            decreases n - i,
        {
            if self.tracks[i].id == *id {
                proof {
                    let s = self@.tracks;
                    lemma_find_track(s, id@);
                    assert(s[i as int].id == id@);
                    if let Some(k) = find_track(s, id@) {
                        assert(!(k < i as int));
                        assert(!((i as int) < k));
                    }
                }
                return Some(i);
            }
            i += 1;
        }
        proof {
            lemma_find_track(self@.tracks, id@);
        }
        None
    }

    /// The track under the given id, if configured.
    pub fn get_track(&self, track_id: &String) -> (r: Option<&Track>)
        ensures
            match r {
                Some(t) => {
                    &&& find_track(self@.tracks, track_id@) is Some
                    &&& t@ == self@.tracks[find_track(self@.tracks, track_id@).unwrap()].track
                },
                None => find_track(self@.tracks, track_id@) is None,
            },
    {
        proof {
            lemma_find_track(self@.tracks, track_id@);
        }
        match self.find_track_index(track_id) {
            Some(i) => Some(&self.tracks[i].track),
            None => None,
        }
    }

    /// The record under the given id, if present.
    pub fn get_record(&self, result_id: &String) -> (r: Option<&Record>)
        ensures
            match r {
                Some(rec) => {
                    &&& find_record(self@.records, result_id@) is Some
                    &&& rec@ == self@.records[find_record(self@.records, result_id@).unwrap()]
                },
                None => find_record(self@.records, result_id@) is None,
            },
    {
        proof {
            lemma_find_record(self@.records, result_id@);
        }
        match self.find_record_index(result_id) {
            Some(i) => Some(&self.records[i]),
            None => None,
        }
    }

    /// All records, in insertion order.
    pub fn records(&self) -> (r: &Vec<Record>)
        ensures
            r@.map_values(|rec: Record| rec@) == self@.records,
    {
        &self.records
    }

    /// All track ids, in configuration order.
    pub fn track_ids(&self) -> (r: Vec<String>)
        ensures
            r@.map_values(|s: String| s@) =~= self@.tracks.map_values(|t: TrackEntryV| t.id),
    {
        let mut out: Vec<String> = Vec::new();
        let n = self.tracks.len();
        let mut i: usize = 0;
        while i < n
            invariant
                n == self.tracks.len(),
                0 <= i <= n,
                out@.len() == i,
                forall|j: int| 0 <= j < i ==> out@[j]@ == self@.tracks[j].id,
            decreases n - i,
        {
            out.push(self.tracks[i].id.clone());
            i += 1;
        }
        out
    }

    /// The first index of the record with the given id.
    fn find_record_index(&self, id: &String) -> (r: Option<usize>)
        ensures
            match r {
                Some(i) => find_record(self@.records, id@) == Some(i as int),
                None => find_record(self@.records, id@) is None,
            },
    {
        let n = self.records.len();
        let mut i: usize = 0;
        while i < n
            invariant
                n == self.records.len(),
                0 <= i <= n,
                forall|j: int| 0 <= j < i ==> self@.records[j].id != id@,
            decreases n - i,
        {
            if *self.records[i].get_id_string() == *id {
                proof {
                    let s = self@.records;
                    lemma_find_record(s, id@);
                    assert(s[i as int].id == id@);
                    if let Some(k) = find_record(s, id@) {
                        assert(!(k < i as int));
                        assert(!((i as int) < k));
                    }
                }
                return Some(i);
            }
            i += 1;
        }
        proof {
            lemma_find_record(self@.records, id@);
        }
        None
    }
}

// ---------------------------------------------------------------------------
// Command transitions
// ---------------------------------------------------------------------------

/// The aggregate with the track at index `i` replaced.
pub open spec fn with_track(c: CompetitionV, i: int, t: TrackV) -> CompetitionV {
    CompetitionV {
        tracks: c.tracks.update(i, TrackEntryV { id: c.tracks[i].id, track: t }),
        ..c
    }
}

/// A record put under its id: the first record with the id is overwritten,
/// otherwise the record is appended.
pub open spec fn upsert_record_spec(rs: Seq<RecordV>, rec: RecordV) -> Seq<RecordV> {
    match find_record(rs, rec.id) {
        Some(i) => rs.update(i, rec),
        None => rs.push(rec),
    }
}

/// What registering a next entrant does at the aggregate level.
pub open spec fn comp_register_next_car_spec(
    c: CompetitionV,
    track_id: Seq<char>,
    entry_id: Seq<char>,
) -> (CompetitionV, Result<(), TimingError>) {
    match find_track(c.tracks, track_id) {
        None => (c, Err(TimingError::NoSuchTrack)),
        Some(i) => (with_track(c, i, track_register_spec(c.tracks[i].track, entry_id)), Ok(())),
    }
}

/// What starting the addressed track's pending entrant does.
pub open spec fn comp_start_spec(c: CompetitionV, ts: u64, track_id: Seq<char>) -> (
    CompetitionV,
    Result<(), TimingError>,
) {
    match find_track(c.tracks, track_id) {
        None => (c, Err(TimingError::NoSuchTrack)),
        Some(i) => {
            let step = track_start_spec(c.tracks[i].track, ts);
            (with_track(c, i, step.0), step.1)
        },
    }
}

/// What a terminal event (stop, DNF, miss-course) does at the aggregate
/// level: the track transition plus, on success, the produced record put
/// under its result id.
pub open spec fn comp_terminate_spec(
    c: CompetitionV,
    ts: u64,
    track_id: Seq<char>,
    entry: Option<Seq<char>>,
    result_id: Seq<char>,
    state: RecordState,
) -> (CompetitionV, Result<(), TimingError>) {
    match find_track(c.tracks, track_id) {
        None => (c, Err(TimingError::NoSuchTrack)),
        Some(i) => {
            let step = track_terminate_spec(c.tracks[i].track, ts, entry, result_id, state);
            match step.1 {
                Err(e) => (c, Err(e)),
                Ok(rec) => (
                    CompetitionV {
                        tracks: with_track(c, i, step.0).tracks,
                        records: upsert_record_spec(c.records, rec),
                    },
                    Ok(()),
                ),
            }
        },
    }
}

/// What a red flag does at the aggregate level.
pub open spec fn comp_red_flag_spec(c: CompetitionV, track_id: Seq<char>) -> (
    CompetitionV,
    Result<(), TimingError>,
) {
    match find_track(c.tracks, track_id) {
        None => (c, Err(TimingError::NoSuchTrack)),
        Some(i) => (with_track(c, i, track_red_flag_spec(c.tracks[i].track)), Ok(())),
    }
}

/// What a counter correction does at the aggregate level.
pub open spec fn comp_bump_spec(
    c: CompetitionV,
    track_id: Seq<char>,
    entry: Seq<char>,
    pylon: bool,
    up: bool,
) -> (CompetitionV, Result<(), TimingError>) {
    match find_track(c.tracks, track_id) {
        None => (c, Err(TimingError::NoSuchTrack)),
        Some(i) => {
            let step = track_bump_spec(c.tracks[i].track, entry, pylon, up);
            (with_track(c, i, step.0), step.1)
        },
    }
}

/// What overwriting a track's record type does at the aggregate level.
pub open spec fn comp_set_track_record_type_spec(
    c: CompetitionV,
    track_id: Seq<char>,
    record_type: Seq<char>,
) -> (CompetitionV, Result<(), TimingError>) {
    match find_track(c.tracks, track_id) {
        None => (c, Err(TimingError::NoSuchTrack)),
        Some(i) => (
            with_track(c, i, track_set_record_type_spec(c.tracks[i].track, record_type)),
            Ok(()),
        ),
    }
}

/// What overwriting the state of the addressed record does.
pub open spec fn comp_set_record_state_spec(
    c: CompetitionV,
    result_id: Seq<char>,
    state: RecordState,
) -> (CompetitionV, Result<(), TimingError>) {
    match find_record(c.records, result_id) {
        None => (c, Err(TimingError::NoSuchRecord)),
        Some(i) => (
            CompetitionV {
                records: c.records.update(i, RecordV { state, ..c.records[i] }),
                ..c
            },
            Ok(()),
        ),
    }
}

/// What overwriting the pylon-touch count of the addressed record does.
pub open spec fn comp_change_record_pylon_spec(
    c: CompetitionV,
    result_id: Seq<char>,
    count: u32,
) -> (CompetitionV, Result<(), TimingError>) {
    match find_record(c.records, result_id) {
        None => (c, Err(TimingError::NoSuchRecord)),
        Some(i) => (
            CompetitionV {
                records: c.records.update(
                    i,
                    RecordV { pylon_touch_count: count, ..c.records[i] },
                ),
                ..c
            },
            Ok(()),
        ),
    }
}

/// What overwriting the derailment count of the addressed record does.
pub open spec fn comp_change_record_derailment_spec(
    c: CompetitionV,
    result_id: Seq<char>,
    count: u32,
) -> (CompetitionV, Result<(), TimingError>) {
    match find_record(c.records, result_id) {
        None => (c, Err(TimingError::NoSuchRecord)),
        Some(i) => (
            CompetitionV {
                records: c.records.update(
                    i,
                    RecordV { derailment_count: count, ..c.records[i] },
                ),
                ..c
            },
            Ok(()),
        ),
    }
}

/// What overwriting the record type of the addressed record does.
pub open spec fn comp_change_record_type_spec(
    c: CompetitionV,
    result_id: Seq<char>,
    record_type: Seq<char>,
) -> (CompetitionV, Result<(), TimingError>) {
    match find_record(c.records, result_id) {
        None => (c, Err(TimingError::NoSuchRecord)),
        Some(i) => (
            CompetitionV {
                records: c.records.update(i, RecordV { record_type, ..c.records[i] }),
                ..c
            },
            Ok(()),
        ),
    }
}

// ---------------------------------------------------------------------------
// Mutating methods
// ---------------------------------------------------------------------------

impl Competition {
    /// Register the next entrant on the addressed track.
    pub fn register_next_car(
        &mut self,
        track_id: &String,
        competition_entry_id: &CompetitionEntryId,
    ) -> (r: Result<(), TimingError>)
        ensures
            final(self)@ == comp_register_next_car_spec(
                old(self)@,
                track_id@,
                competition_entry_id@,
            ).0,
            r == comp_register_next_car_spec(old(self)@, track_id@, competition_entry_id@).1,
    {
        let i = match self.find_track_index(track_id) {
            Some(i) => i,
            None => {
                return Err(TimingError::NoSuchTrack);
            },
        };
        proof {
            lemma_find_track(self@.tracks, track_id@);
        }
        let mut slot = self.tracks.remove(i);
        let res = slot.track.register_next_car(competition_entry_id.clone());
        self.tracks.insert(i, slot);
        proof {
            assert(self@.tracks =~= comp_register_next_car_spec(
                old(self)@,
                track_id@,
                competition_entry_id@,
            ).0.tracks);
        }
        res
    }

    /// Start the addressed track's pending entrant.
    pub fn start(&mut self, timestamp: u64, track_id: &String) -> (r: Result<(), TimingError>)
        ensures
            final(self)@ == comp_start_spec(old(self)@, timestamp, track_id@).0,
            r == comp_start_spec(old(self)@, timestamp, track_id@).1,
    {
        let i = match self.find_track_index(track_id) {
            Some(i) => i,
            None => {
                return Err(TimingError::NoSuchTrack);
            },
        };
        proof {
            lemma_find_track(self@.tracks, track_id@);
        }
        let mut slot = self.tracks.remove(i);
        let res = slot.track.start(timestamp);
        self.tracks.insert(i, slot);
        proof {
            assert(self@.tracks =~= comp_start_spec(old(self)@, timestamp, track_id@).0.tracks);
        }
        res
    }

    /// Shared body of the aggregate-level terminal events.
    fn terminate(
        &mut self,
        timestamp: u64,
        track_id: &String,
        competition_entry_id: Option<&CompetitionEntryId>,
        result_id: &String,
        state: RecordState,
    ) -> (r: Result<(), TimingError>)
        ensures
            final(self)@ == comp_terminate_spec(
                old(self)@,
                timestamp,
                track_id@,
                match competition_entry_id {
                    Some(e) => Some(e@),
                    None => None,
                },
                result_id@,
                state,
            ).0,
            r == comp_terminate_spec(
                old(self)@,
                timestamp,
                track_id@,
                match competition_entry_id {
                    Some(e) => Some(e@),
                    None => None,
                },
                result_id@,
                state,
            ).1,
    {
        let i = match self.find_track_index(track_id) {
            Some(i) => i,
            None => {
                return Err(TimingError::NoSuchTrack);
            },
        };
        proof {
            lemma_find_track(self@.tracks, track_id@);
        }
        let mut slot = self.tracks.remove(i);
        let res = slot.track.terminate(timestamp, competition_entry_id, result_id.clone(), state);
        self.tracks.insert(i, slot);
        match res {
            Ok(rec) => {
                proof {
                    assert(self@.tracks =~= comp_terminate_spec(
                        old(self)@,
                        timestamp,
                        track_id@,
                        match competition_entry_id {
                            Some(e) => Some(e@),
                            None => None,
                        },
                        result_id@,
                        state,
                    ).0.tracks);
                }
                self.upsert_record(rec);
                Ok(())
            },
            Err(e) => {
                proof {
                    assert(self@.tracks =~= old(self)@.tracks);
                }
                Err(e)
            },
        }
    }

    /// Put a record under its id: overwrite the first record with the id,
    /// else append.
    fn upsert_record(&mut self, rec: Record)
        ensures
            final(self)@.records =~= upsert_record_spec(old(self)@.records, rec@),
            final(self)@.tracks == old(self)@.tracks,
    {
        let i = match self.find_record_index(rec.get_id_string()) {
            Some(i) => i,
            None => {
                self.records.push(rec);
                proof {
                    lemma_find_record(old(self)@.records, rec@.id);
                }
                return ;
            },
        };
        proof {
            lemma_find_record(old(self)@.records, rec@.id);
        }
        let _old_rec = self.records.remove(i);
        self.records.insert(i, rec);
        proof {
            assert(self@.records =~= old(self)@.records.update(i as int, rec@));
        }
    }

    /// Stop an entrant on the addressed track — by id, or the FIFO head —
    /// and file the checkered record under `result_id`.
    pub fn stop(
        &mut self,
        timestamp: u64,
        track_id: &String,
        competition_entry_id: Option<&CompetitionEntryId>,
        result_id: &String,
    ) -> (r: Result<(), TimingError>)
        ensures
            final(self)@ == comp_terminate_spec(
                old(self)@,
                timestamp,
                track_id@,
                match competition_entry_id {
                    Some(e) => Some(e@),
                    None => None,
                },
                result_id@,
                RecordState::Checkered,
            ).0,
            r == comp_terminate_spec(
                old(self)@,
                timestamp,
                track_id@,
                match competition_entry_id {
                    Some(e) => Some(e@),
                    None => None,
                },
                result_id@,
                RecordState::Checkered,
            ).1,
    {
        self.terminate(timestamp, track_id, competition_entry_id, result_id, RecordState::Checkered)
    }

    /// Remove the addressed entrant as a miss-course and file its record.
    pub fn miss_course(
        &mut self,
        timestamp: u64,
        track_id: &String,
        competition_entry_id: &CompetitionEntryId,
        result_id: &String,
    ) -> (r: Result<(), TimingError>)
        ensures
            final(self)@ == comp_terminate_spec(
                old(self)@,
                timestamp,
                track_id@,
                Some(competition_entry_id@),
                result_id@,
                RecordState::MissCourse,
            ).0,
            r == comp_terminate_spec(
                old(self)@,
                timestamp,
                track_id@,
                Some(competition_entry_id@),
                result_id@,
                RecordState::MissCourse,
            ).1,
    {
        self.terminate(
            timestamp,
            track_id,
            Some(competition_entry_id),
            result_id,
            RecordState::MissCourse,
        )
    }

    /// Remove the addressed entrant as a DNF and file its record.
    pub fn did_not_finished(
        &mut self,
        timestamp: u64,
        track_id: &String,
        competition_entry_id: &CompetitionEntryId,
        result_id: &String,
    ) -> (r: Result<(), TimingError>)
        ensures
            final(self)@ == comp_terminate_spec(
                old(self)@,
                timestamp,
                track_id@,
                Some(competition_entry_id@),
                result_id@,
                RecordState::DidNotFinished,
            ).0,
            r == comp_terminate_spec(
                old(self)@,
                timestamp,
                track_id@,
                Some(competition_entry_id@),
                result_id@,
                RecordState::DidNotFinished,
            ).1,
    {
        self.terminate(
            timestamp,
            track_id,
            Some(competition_entry_id),
            result_id,
            RecordState::DidNotFinished,
        )
    }

    /// Discard every running entrant on the addressed track.
    pub fn red_flag(&mut self, _timestamp: u64, track_id: &String) -> (r: Result<
        (),
        TimingError,
    >)
        ensures
            final(self)@ == comp_red_flag_spec(old(self)@, track_id@).0,
            r == comp_red_flag_spec(old(self)@, track_id@).1,
    {
        let i = match self.find_track_index(track_id) {
            Some(i) => i,
            None => {
                return Err(TimingError::NoSuchTrack);
            },
        };
        proof {
            lemma_find_track(self@.tracks, track_id@);
        }
        let mut slot = self.tracks.remove(i);
        let res = slot.track.red_flag(_timestamp);
        self.tracks.insert(i, slot);
        proof {
            assert(self@.tracks =~= comp_red_flag_spec(old(self)@, track_id@).0.tracks);
        }
        res
    }

    /// Shared body of the aggregate-level counter corrections.
    fn bump(
        &mut self,
        track_id: &String,
        competition_entry_id: &CompetitionEntryId,
        pylon: bool,
        up: bool,
    ) -> (r: Result<(), TimingError>)
        ensures
            final(self)@ == comp_bump_spec(
                old(self)@,
                track_id@,
                competition_entry_id@,
                pylon,
                up,
            ).0,
            r == comp_bump_spec(old(self)@, track_id@, competition_entry_id@, pylon, up).1,
    {
        let i = match self.find_track_index(track_id) {
            Some(i) => i,
            None => {
                return Err(TimingError::NoSuchTrack);
            },
        };
        proof {
            lemma_find_track(self@.tracks, track_id@);
        }
        let mut slot = self.tracks.remove(i);
        let res = slot.track.bump_counter(competition_entry_id, pylon, up);
        self.tracks.insert(i, slot);
        proof {
            assert(self@.tracks =~= comp_bump_spec(
                old(self)@,
                track_id@,
                competition_entry_id@,
                pylon,
                up,
            ).0.tracks);
        }
        res
    }

    /// Increment the addressed entrant's pylon-touch counter.
    pub fn add_touched_pylon_count(
        &mut self,
        track_id: &String,
        competition_entry_id: &CompetitionEntryId,
    ) -> (r: Result<(), TimingError>)
        ensures
            final(self)@ == comp_bump_spec(
                old(self)@,
                track_id@,
                competition_entry_id@,
                true,
                true,
            ).0,
            r == comp_bump_spec(old(self)@, track_id@, competition_entry_id@, true, true).1,
    {
        self.bump(track_id, competition_entry_id, true, true)
    }

    /// Decrement the addressed entrant's pylon-touch counter.
    pub fn remove_touched_pylon_count(
        &mut self,
        track_id: &String,
        competition_entry_id: &CompetitionEntryId,
    ) -> (r: Result<(), TimingError>)
        ensures
            final(self)@ == comp_bump_spec(
                old(self)@,
                track_id@,
                competition_entry_id@,
                true,
                false,
            ).0,
            r == comp_bump_spec(old(self)@, track_id@, competition_entry_id@, true, false).1,
    {
        self.bump(track_id, competition_entry_id, true, false)
    }

    /// Increment the addressed entrant's derailment counter.
    pub fn add_derailment_count(
        &mut self,
        track_id: &String,
        competition_entry_id: &CompetitionEntryId,
    ) -> (r: Result<(), TimingError>)
        ensures
            final(self)@ == comp_bump_spec(
                old(self)@,
                track_id@,
                competition_entry_id@,
                false,
                true,
            ).0,
            r == comp_bump_spec(old(self)@, track_id@, competition_entry_id@, false, true).1,
    {
        self.bump(track_id, competition_entry_id, false, true)
    }

    /// Decrement the addressed entrant's derailment counter.
    pub fn remove_derailment_count(
        &mut self,
        track_id: &String,
        competition_entry_id: &CompetitionEntryId,
    ) -> (r: Result<(), TimingError>)
        ensures
            final(self)@ == comp_bump_spec(
                old(self)@,
                track_id@,
                competition_entry_id@,
                false,
                false,
            ).0,
            r == comp_bump_spec(old(self)@, track_id@, competition_entry_id@, false, false).1,
    {
        self.bump(track_id, competition_entry_id, false, false)
    }

    /// Overwrite the record type the addressed track applies to new records.
    pub fn set_track_record_type(&mut self, track_id: &String, record_type: &str) -> (r: Result<
        (),
        TimingError,
    >)
        ensures
            final(self)@ == comp_set_track_record_type_spec(old(self)@, track_id@, record_type@).0,
            r == comp_set_track_record_type_spec(old(self)@, track_id@, record_type@).1,
    {
        let i = match self.find_track_index(track_id) {
            Some(i) => i,
            None => {
                return Err(TimingError::NoSuchTrack);
            },
        };
        proof {
            lemma_find_track(self@.tracks, track_id@);
        }
        let mut slot = self.tracks.remove(i);
        let res = slot.track.set_record_type(record_type);
        self.tracks.insert(i, slot);
        proof {
            assert(self@.tracks =~= comp_set_track_record_type_spec(
                old(self)@,
                track_id@,
                record_type@,
            ).0.tracks);
        }
        res
    }

    /// Shared body of the record-state overwrites.
    fn set_record_state(&mut self, record_id: &String, state: RecordState) -> (r: Result<
        (),
        TimingError,
    >)
        ensures
            final(self)@ == comp_set_record_state_spec(old(self)@, record_id@, state).0,
            r == comp_set_record_state_spec(old(self)@, record_id@, state).1,
    {
        let i = match self.find_record_index(record_id) {
            Some(i) => i,
            None => {
                return Err(TimingError::NoSuchRecord);
            },
        };
        proof {
            lemma_find_record(self@.records, record_id@);
        }
        let mut rec = self.records.remove(i);
        rec.set_state(state);
        self.records.insert(i, rec);
        proof {
            assert(self@.records =~= comp_set_record_state_spec(
                old(self)@,
                record_id@,
                state,
            ).0.records);
        }
        Ok(())
    }

    /// Mark the addressed record as a DNF after the fact.
    pub fn mark_dnf_to_record(&mut self, record_id: &String) -> (r: Result<(), TimingError>)
        ensures
            final(self)@ == comp_set_record_state_spec(
                old(self)@,
                record_id@,
                RecordState::DidNotFinished,
            ).0,
            r == comp_set_record_state_spec(old(self)@, record_id@, RecordState::DidNotFinished).1,
    {
        self.set_record_state(record_id, RecordState::DidNotFinished)
    }

    /// Mark the addressed record as a miss-course after the fact.
    pub fn mark_miss_course_to_record(&mut self, record_id: &String) -> (r: Result<
        (),
        TimingError,
    >)
        ensures
            final(self)@ == comp_set_record_state_spec(
                old(self)@,
                record_id@,
                RecordState::MissCourse,
            ).0,
            r == comp_set_record_state_spec(old(self)@, record_id@, RecordState::MissCourse).1,
    {
        self.set_record_state(record_id, RecordState::MissCourse)
    }

    /// Soft-delete the addressed record.
    pub fn mark_removed_to_record(&mut self, record_id: &String) -> (r: Result<(), TimingError>)
        ensures
            final(self)@ == comp_set_record_state_spec(
                old(self)@,
                record_id@,
                RecordState::Removed,
            ).0,
            r == comp_set_record_state_spec(old(self)@, record_id@, RecordState::Removed).1,
    {
        self.set_record_state(record_id, RecordState::Removed)
    }

    /// Reinstate the addressed record as a regular finish.
    pub fn recovery_record(&mut self, record_id: &String) -> (r: Result<(), TimingError>)
        ensures
            final(self)@ == comp_set_record_state_spec(
                old(self)@,
                record_id@,
                RecordState::Checkered,
            ).0,
            r == comp_set_record_state_spec(old(self)@, record_id@, RecordState::Checkered).1,
    {
        self.set_record_state(record_id, RecordState::Checkered)
    }

    /// Overwrite the pylon-touch count stored on the addressed record.
    pub fn change_pylon_touch_count_of_record(&mut self, record_id: &String, count: u32) -> (r:
        Result<(), TimingError>)
        ensures
            final(self)@ == comp_change_record_pylon_spec(old(self)@, record_id@, count).0,
            r == comp_change_record_pylon_spec(old(self)@, record_id@, count).1,
    {
        let i = match self.find_record_index(record_id) {
            Some(i) => i,
            None => {
                return Err(TimingError::NoSuchRecord);
            },
        };
        proof {
            lemma_find_record(self@.records, record_id@);
        }
        let mut rec = self.records.remove(i);
        rec.set_pylon_touch_count(count);
        self.records.insert(i, rec);
        proof {
            assert(self@.records =~= comp_change_record_pylon_spec(
                old(self)@,
                record_id@,
                count,
            ).0.records);
        }
        Ok(())
    }

    /// Overwrite the derailment count stored on the addressed record.
    pub fn change_derailment_count_of_record(&mut self, record_id: &String, count: u32) -> (r:
        Result<(), TimingError>)
        ensures
            final(self)@ == comp_change_record_derailment_spec(old(self)@, record_id@, count).0,
            r == comp_change_record_derailment_spec(old(self)@, record_id@, count).1,
    {
        let i = match self.find_record_index(record_id) {
            Some(i) => i,
            None => {
                return Err(TimingError::NoSuchRecord);
            },
        };
        proof {
            lemma_find_record(self@.records, record_id@);
        }
        let mut rec = self.records.remove(i);
        rec.set_derailment_count(count);
        self.records.insert(i, rec);
        proof {
            assert(self@.records =~= comp_change_record_derailment_spec(
                old(self)@,
                record_id@,
                count,
            ).0.records);
        }
        Ok(())
    }

    /// Overwrite the record type stored on the addressed record.
    pub fn change_record_type(&mut self, record_id: &String, record_type: &str) -> (r: Result<
        (),
        TimingError,
    >)
        ensures
            final(self)@ == comp_change_record_type_spec(old(self)@, record_id@, record_type@).0,
            r == comp_change_record_type_spec(old(self)@, record_id@, record_type@).1,
    {
        let i = match self.find_record_index(record_id) {
            Some(i) => i,
            None => {
                return Err(TimingError::NoSuchRecord);
            },
        };
        proof {
            lemma_find_record(self@.records, record_id@);
        }
        let mut rec = self.records.remove(i);
        rec.set_record_type(record_type.to_owned());
        self.records.insert(i, rec);
        proof {
            assert(self@.records =~= comp_change_record_type_spec(
                old(self)@,
                record_id@,
                record_type@,
            ).0.records);
        }
        Ok(())
    }
}

// ---------------------------------------------------------------------------
// The command vocabulary
// ---------------------------------------------------------------------------

/// Model of a command kind: every identifier as a plain character sequence.
#[allow(inconsistent_fields)]
pub enum EventKindV {
    RegisterNextCar { track_id: Seq<char>, competition_entry_id: Seq<char> },
    Start { track_id: Seq<char> },
    Stop { result_id: Seq<char>, track_id: Seq<char>, competition_entry_id: Option<Seq<char>> },
    RedFlag { track_id: Seq<char> },
    AddPylonTouch { track_id: Seq<char>, competition_entry_id: Seq<char> },
    RemovePylonTouch { track_id: Seq<char>, competition_entry_id: Seq<char> },
    AddDerailment { track_id: Seq<char>, competition_entry_id: Seq<char> },
    RemoveDerailment { track_id: Seq<char>, competition_entry_id: Seq<char> },
    MarkDNF { result_id: Seq<char>, track_id: Seq<char>, competition_entry_id: Seq<char> },
    MarkMissCourse { result_id: Seq<char>, track_id: Seq<char>, competition_entry_id: Seq<char> },
    MarkDNFToRecord { result_id: Seq<char> },
    MarkMissCourseToRecord { result_id: Seq<char> },
    RemoveRecord { result_id: Seq<char> },
    RecoveryRecord { result_id: Seq<char> },
    ChangeRecordPylonTouchCount { result_id: Seq<char>, count: u32 },
    ChangeRecordDerailmentCount { result_id: Seq<char>, count: u32 },
    ChangeRecordType { result_id: Seq<char>, record_type: Seq<char> },
    SetTrackRecordType { track_id: Seq<char>, record_type: Seq<char> },
}

/// Model of a command: its logical timestamp and its kind.
pub struct EventV {
    pub time_stamp: u64,
    pub kind: EventKindV,
}

/// What a command asks of the aggregate.
#[allow(inconsistent_fields)]
#[derive(Debug)]
pub enum CompetitionEventKind {
    RegisterNextCar { track_id: String, competition_entry_id: CompetitionEntryId },
    Start { track_id: String },
    Stop { result_id: String, track_id: String, competition_entry_id: Option<CompetitionEntryId> },
    RedFlag { track_id: String },
    AddPylonTouch { track_id: String, competition_entry_id: CompetitionEntryId },
    RemovePylonTouch { track_id: String, competition_entry_id: CompetitionEntryId },
    AddDerailment { track_id: String, competition_entry_id: CompetitionEntryId },
    RemoveDerailment { track_id: String, competition_entry_id: CompetitionEntryId },
    MarkDNF { result_id: String, track_id: String, competition_entry_id: CompetitionEntryId },
    MarkMissCourse { result_id: String, track_id: String, competition_entry_id: CompetitionEntryId },
    MarkDNFToRecord { result_id: String },
    MarkMissCourseToRecord { result_id: String },
    RemoveRecord { result_id: String },
    RecoveryRecord { result_id: String },
    ChangeRecordPylonTouchCount { result_id: String, count: u32 },
    ChangeRecordDerailmentCount { result_id: String, count: u32 },
    ChangeRecordType { result_id: String, record_type: String },
    SetTrackRecordType { track_id: String, record_type: String },
}

impl View for CompetitionEventKind {
    type V = EventKindV;

    open spec fn view(&self) -> EventKindV {
        match self {
            CompetitionEventKind::RegisterNextCar { track_id, competition_entry_id } => (
                EventKindV::RegisterNextCar {
                    track_id: track_id@,
                    competition_entry_id: competition_entry_id@,
                }
            ),
            CompetitionEventKind::Start { track_id } => (
                EventKindV::Start { track_id: track_id@ }
            ),
            CompetitionEventKind::Stop { result_id, track_id, competition_entry_id } => (
                EventKindV::Stop {
                    result_id: result_id@,
                    track_id: track_id@,
                    competition_entry_id: match competition_entry_id {
                        Some(e) => Some(e@),
                        None => None,
                    },
                }
            ),
            CompetitionEventKind::RedFlag { track_id } => (
                EventKindV::RedFlag { track_id: track_id@ }
            ),
            CompetitionEventKind::AddPylonTouch { track_id, competition_entry_id } => (
                EventKindV::AddPylonTouch {
                    track_id: track_id@,
                    competition_entry_id: competition_entry_id@,
                }
            ),
            CompetitionEventKind::RemovePylonTouch { track_id, competition_entry_id } => (
                EventKindV::RemovePylonTouch {
                    track_id: track_id@,
                    competition_entry_id: competition_entry_id@,
                }
            ),
            CompetitionEventKind::AddDerailment { track_id, competition_entry_id } => (
                EventKindV::AddDerailment {
                    track_id: track_id@,
                    competition_entry_id: competition_entry_id@,
                }
            ),
            CompetitionEventKind::RemoveDerailment { track_id, competition_entry_id } => (
                EventKindV::RemoveDerailment {
                    track_id: track_id@,
                    competition_entry_id: competition_entry_id@,
                }
            ),
            CompetitionEventKind::MarkDNF { result_id, track_id, competition_entry_id } => (
                EventKindV::MarkDNF {
                    result_id: result_id@,
                    track_id: track_id@,
                    competition_entry_id: competition_entry_id@,
                }
            ),
            CompetitionEventKind::MarkMissCourse { result_id, track_id, competition_entry_id } => (
                EventKindV::MarkMissCourse {
                    result_id: result_id@,
                    track_id: track_id@,
                    competition_entry_id: competition_entry_id@,
                }
            ),
            CompetitionEventKind::MarkDNFToRecord { result_id } => (
                EventKindV::MarkDNFToRecord { result_id: result_id@ }
            ),
            CompetitionEventKind::MarkMissCourseToRecord { result_id } => (
                EventKindV::MarkMissCourseToRecord { result_id: result_id@ }
            ),
            CompetitionEventKind::RemoveRecord { result_id } => (
                EventKindV::RemoveRecord { result_id: result_id@ }
            ),
            CompetitionEventKind::RecoveryRecord { result_id } => (
                EventKindV::RecoveryRecord { result_id: result_id@ }
            ),
            CompetitionEventKind::ChangeRecordPylonTouchCount { result_id, count } => (
                EventKindV::ChangeRecordPylonTouchCount { result_id: result_id@, count: *count }
            ),
            CompetitionEventKind::ChangeRecordDerailmentCount { result_id, count } => (
                EventKindV::ChangeRecordDerailmentCount { result_id: result_id@, count: *count }
            ),
            CompetitionEventKind::ChangeRecordType { result_id, record_type } => (
                EventKindV::ChangeRecordType {
                    result_id: result_id@,
                    record_type: record_type@,
                }
            ),
            CompetitionEventKind::SetTrackRecordType { track_id, record_type } => (
                EventKindV::SetTrackRecordType {
                    track_id: track_id@,
                    record_type: record_type@,
                }
            ),
        }
    }
}

/// A timestamped command: a fact about the competition at a logical time.
#[derive(Debug)]
pub struct CompetitionEvent {
    pub time_stamp: u64,
    pub kind: CompetitionEventKind,
}

impl View for CompetitionEvent {
    type V = EventV;

    open spec fn view(&self) -> EventV {
        EventV { time_stamp: self.time_stamp, kind: self.kind@ }
    }
}

impl CompetitionEvent {
    /// A command from its timestamp and kind.
    pub fn new(time_stamp: u64, kind: CompetitionEventKind) -> (r: Self)
        ensures
            r@ == (EventV { time_stamp, kind: kind@ }),
    {
        Self { time_stamp, kind }
    }
}

impl Clone for CompetitionEventKind {
    fn clone(&self) -> (r: Self)
        ensures
            r@ == self@,
    {
        match self {
            CompetitionEventKind::RegisterNextCar { track_id, competition_entry_id } => (
                CompetitionEventKind::RegisterNextCar {
                    track_id: track_id.clone(),
                    competition_entry_id: competition_entry_id.clone(),
                }
            ),
            CompetitionEventKind::Start { track_id } => (
                CompetitionEventKind::Start { track_id: track_id.clone() }
            ),
            CompetitionEventKind::Stop { result_id, track_id, competition_entry_id } => (
                CompetitionEventKind::Stop {
                    result_id: result_id.clone(),
                    track_id: track_id.clone(),
                    competition_entry_id: match competition_entry_id {
                        Some(e) => Some(e.clone()),
                        None => None,
                    },
                }
            ),
            CompetitionEventKind::RedFlag { track_id } => (
                CompetitionEventKind::RedFlag { track_id: track_id.clone() }
            ),
            CompetitionEventKind::AddPylonTouch { track_id, competition_entry_id } => (
                CompetitionEventKind::AddPylonTouch {
                    track_id: track_id.clone(),
                    competition_entry_id: competition_entry_id.clone(),
                }
            ),
            CompetitionEventKind::RemovePylonTouch { track_id, competition_entry_id } => (
                CompetitionEventKind::RemovePylonTouch {
                    track_id: track_id.clone(),
                    competition_entry_id: competition_entry_id.clone(),
                }
            ),
            CompetitionEventKind::AddDerailment { track_id, competition_entry_id } => (
                CompetitionEventKind::AddDerailment {
                    track_id: track_id.clone(),
                    competition_entry_id: competition_entry_id.clone(),
                }
            ),
            CompetitionEventKind::RemoveDerailment { track_id, competition_entry_id } => (
                CompetitionEventKind::RemoveDerailment {
                    track_id: track_id.clone(),
                    competition_entry_id: competition_entry_id.clone(),
                }
            ),
            CompetitionEventKind::MarkDNF { result_id, track_id, competition_entry_id } => (
                CompetitionEventKind::MarkDNF {
                    result_id: result_id.clone(),
                    track_id: track_id.clone(),
                    competition_entry_id: competition_entry_id.clone(),
                }
            ),
            CompetitionEventKind::MarkMissCourse { result_id, track_id, competition_entry_id } => (
                CompetitionEventKind::MarkMissCourse {
                    result_id: result_id.clone(),
                    track_id: track_id.clone(),
                    competition_entry_id: competition_entry_id.clone(),
                }
            ),
            CompetitionEventKind::MarkDNFToRecord { result_id } => (
                CompetitionEventKind::MarkDNFToRecord { result_id: result_id.clone() }
            ),
            CompetitionEventKind::MarkMissCourseToRecord { result_id } => (
                CompetitionEventKind::MarkMissCourseToRecord { result_id: result_id.clone() }
            ),
            CompetitionEventKind::RemoveRecord { result_id } => (
                CompetitionEventKind::RemoveRecord { result_id: result_id.clone() }
            ),
            CompetitionEventKind::RecoveryRecord { result_id } => (
                CompetitionEventKind::RecoveryRecord { result_id: result_id.clone() }
            ),
            CompetitionEventKind::ChangeRecordPylonTouchCount { result_id, count } => (
                CompetitionEventKind::ChangeRecordPylonTouchCount {
                    result_id: result_id.clone(),
                    count: *count,
                }
            ),
            CompetitionEventKind::ChangeRecordDerailmentCount { result_id, count } => (
                CompetitionEventKind::ChangeRecordDerailmentCount {
                    result_id: result_id.clone(),
                    count: *count,
                }
            ),
            CompetitionEventKind::ChangeRecordType { result_id, record_type } => (
                CompetitionEventKind::ChangeRecordType {
                    result_id: result_id.clone(),
                    record_type: record_type.clone(),
                }
            ),
            CompetitionEventKind::SetTrackRecordType { track_id, record_type } => (
                CompetitionEventKind::SetTrackRecordType {
                    track_id: track_id.clone(),
                    record_type: record_type.clone(),
                }
            ),
        }
    }
}

impl Clone for CompetitionEvent {
    fn clone(&self) -> (r: Self)
        ensures
            r@ == self@,
    {
        CompetitionEvent { time_stamp: self.time_stamp, kind: self.kind.clone() }
    }
}

/// What one command does to the aggregate: the state it leaves and the
/// result it reports. The single transition the replay engine folds over.
pub open spec fn comp_apply_spec(c: CompetitionV, e: EventV) -> (
    CompetitionV,
    Result<(), TimingError>,
) {
    match e.kind {
        EventKindV::RegisterNextCar { track_id, competition_entry_id } => (
            comp_register_next_car_spec(c, track_id, competition_entry_id)
        ),
        EventKindV::Start { track_id } => comp_start_spec(c, e.time_stamp, track_id),
        EventKindV::Stop { result_id, track_id, competition_entry_id } => (
            comp_terminate_spec(
                c,
                e.time_stamp,
                track_id,
                competition_entry_id,
                result_id,
                RecordState::Checkered,
            )
        ),
        EventKindV::RedFlag { track_id } => comp_red_flag_spec(c, track_id),
        EventKindV::AddPylonTouch { track_id, competition_entry_id } => (
            comp_bump_spec(c, track_id, competition_entry_id, true, true)
        ),
        EventKindV::RemovePylonTouch { track_id, competition_entry_id } => (
            comp_bump_spec(c, track_id, competition_entry_id, true, false)
        ),
        EventKindV::AddDerailment { track_id, competition_entry_id } => (
            comp_bump_spec(c, track_id, competition_entry_id, false, true)
        ),
        EventKindV::RemoveDerailment { track_id, competition_entry_id } => (
            comp_bump_spec(c, track_id, competition_entry_id, false, false)
        ),
        EventKindV::MarkDNF { result_id, track_id, competition_entry_id } => (
            comp_terminate_spec(
                c,
                e.time_stamp,
                track_id,
                Some(competition_entry_id),
                result_id,
                RecordState::DidNotFinished,
            )
        ),
        EventKindV::MarkMissCourse { result_id, track_id, competition_entry_id } => (
            comp_terminate_spec(
                c,
                e.time_stamp,
                track_id,
                Some(competition_entry_id),
                result_id,
                RecordState::MissCourse,
            )
        ),
        EventKindV::MarkDNFToRecord { result_id } => (
            comp_set_record_state_spec(c, result_id, RecordState::DidNotFinished)
        ),
        EventKindV::MarkMissCourseToRecord { result_id } => (
            comp_set_record_state_spec(c, result_id, RecordState::MissCourse)
        ),
        EventKindV::RemoveRecord { result_id } => (
            comp_set_record_state_spec(c, result_id, RecordState::Removed)
        ),
        EventKindV::RecoveryRecord { result_id } => (
            comp_set_record_state_spec(c, result_id, RecordState::Checkered)
        ),
        EventKindV::ChangeRecordPylonTouchCount { result_id, count } => (
            comp_change_record_pylon_spec(c, result_id, count)
        ),
        EventKindV::ChangeRecordDerailmentCount { result_id, count } => (
            comp_change_record_derailment_spec(c, result_id, count)
        ),
        EventKindV::ChangeRecordType { result_id, record_type } => (
            comp_change_record_type_spec(c, result_id, record_type)
        ),
        EventKindV::SetTrackRecordType { track_id, record_type } => (
            comp_set_track_record_type_spec(c, track_id, record_type)
        ),
    }
}

/// Whether no two track entries share an id.
pub open spec fn entry_ids_unique(s: Seq<TrackEntryV>) -> bool {
    forall|i: int, j: int| 0 <= i < j < s.len() ==> s[i].id != s[j].id
}

/// Whether no two records share an id.
pub open spec fn record_ids_unique(s: Seq<RecordV>) -> bool {
    forall|i: int, j: int| 0 <= i < j < s.len() ==> s[i].id != s[j].id
}

/// Upserting a track entry keeps entry ids unique: a present id is
/// overwritten in place, an absent one is appended.
proof fn lemma_upsert_track_unique(s: Seq<TrackEntryV>, e: TrackEntryV)
    requires
        entry_ids_unique(s),
    ensures
        entry_ids_unique(upsert_track(s, e)),
{
    lemma_find_track(s, e.id);
    match find_track(s, e.id) {
        Some(k) => {
            assert(s[k].id == e.id);
        },
        None => {},
    }
}

/// Upserting a record keeps record ids unique.
proof fn lemma_upsert_record_unique(s: Seq<RecordV>, rec: RecordV)
    requires
        record_ids_unique(s),
    ensures
        record_ids_unique(upsert_record_spec(s, rec)),
{
    lemma_find_record(s, rec.id);
    match find_record(s, rec.id) {
        Some(k) => {
            assert(s[k].id == rec.id);
        },
        None => {},
    }
}

/// A freshly built competition has unique track ids and no records.
pub proof fn lemma_build_ids_unique(cfg: Seq<TrackSetupV>)
    ensures
        entry_ids_unique(build_tracks_spec(cfg)),
    decreases cfg.len(),
{
    if cfg.len() > 0 {
        lemma_build_ids_unique(cfg.drop_last());
        lemma_upsert_track_unique(
            build_tracks_spec(cfg.drop_last()),
            (TrackEntryV { id: cfg.last().id, track: fresh_track(cfg.last().overlap_limit) }),
        );
    }
}

/// Overwriting one record in place under its own id keeps record ids
/// unique.
proof fn lemma_update_same_id_unique(s: Seq<RecordV>, m: int, r2: RecordV)
    requires
        record_ids_unique(s),
        0 <= m < s.len(),
        r2.id == s[m].id,
    ensures
        record_ids_unique(s.update(m, r2)),
{
}

/// No command renames, adds or drops a track: the tracks keep their ids and
/// their order.
pub proof fn lemma_apply_keeps_track_ids(c: CompetitionV, e: EventV)
    ensures
        comp_apply_spec(c, e).0.tracks.len() == c.tracks.len(),
        forall|i: int|
            0 <= i < c.tracks.len() ==> #[trigger] comp_apply_spec(c, e).0.tracks[i].id
                == c.tracks[i].id,
{
    match e.kind {
        EventKindV::RegisterNextCar { track_id, .. } => {
            lemma_find_track(c.tracks, track_id);
        },
        EventKindV::Start { track_id } => {
            lemma_find_track(c.tracks, track_id);
        },
        EventKindV::Stop { track_id, .. } => {
            lemma_find_track(c.tracks, track_id);
        },
        EventKindV::RedFlag { track_id } => {
            lemma_find_track(c.tracks, track_id);
        },
        EventKindV::AddPylonTouch { track_id, .. } => {
            lemma_find_track(c.tracks, track_id);
        },
        EventKindV::RemovePylonTouch { track_id, .. } => {
            lemma_find_track(c.tracks, track_id);
        },
        EventKindV::AddDerailment { track_id, .. } => {
            lemma_find_track(c.tracks, track_id);
        },
        EventKindV::RemoveDerailment { track_id, .. } => {
            lemma_find_track(c.tracks, track_id);
        },
        EventKindV::MarkDNF { track_id, .. } => {
            lemma_find_track(c.tracks, track_id);
        },
        EventKindV::MarkMissCourse { track_id, .. } => {
            lemma_find_track(c.tracks, track_id);
        },
        EventKindV::SetTrackRecordType { track_id, .. } => {
            lemma_find_track(c.tracks, track_id);
        },
        _ => {},
    }
}

/// Every command keeps record ids unique: a record mutation overwrites one
/// record in place under its id, and a terminal event upserts its record.
pub proof fn lemma_apply_keeps_ids_unique(c: CompetitionV, e: EventV)
    requires
        entry_ids_unique(c.tracks),
        record_ids_unique(c.records),
    ensures
        entry_ids_unique(comp_apply_spec(c, e).0.tracks),
        record_ids_unique(comp_apply_spec(c, e).0.records),
{
    lemma_apply_keeps_track_ids(c, e);
    let post = comp_apply_spec(c, e).0;
    assert(entry_ids_unique(post.tracks));
    match e.kind {
        EventKindV::Stop { result_id, track_id, competition_entry_id } => {
            lemma_terminate_record_unique(
                c,
                e.time_stamp,
                track_id,
                competition_entry_id,
                result_id,
                RecordState::Checkered,
            );
        },
        EventKindV::MarkDNF { result_id, track_id, competition_entry_id } => {
            lemma_terminate_record_unique(
                c,
                e.time_stamp,
                track_id,
                Some(competition_entry_id),
                result_id,
                RecordState::DidNotFinished,
            );
        },
        EventKindV::MarkMissCourse { result_id, track_id, competition_entry_id } => {
            lemma_terminate_record_unique(
                c,
                e.time_stamp,
                track_id,
                Some(competition_entry_id),
                result_id,
                RecordState::MissCourse,
            );
        },
        EventKindV::MarkDNFToRecord { result_id } => {
            if let Some(m) = find_record(c.records, result_id) {
                lemma_find_record(c.records, result_id);
                lemma_update_same_id_unique(
                    c.records,
                    m,
                    (RecordV { state: RecordState::DidNotFinished, ..c.records[m] }),
                );
            }
        },
        EventKindV::MarkMissCourseToRecord { result_id } => {
            if let Some(m) = find_record(c.records, result_id) {
                lemma_find_record(c.records, result_id);
                lemma_update_same_id_unique(
                    c.records,
                    m,
                    (RecordV { state: RecordState::MissCourse, ..c.records[m] }),
                );
            }
        },
        EventKindV::RemoveRecord { result_id } => {
            if let Some(m) = find_record(c.records, result_id) {
                lemma_find_record(c.records, result_id);
                lemma_update_same_id_unique(
                    c.records,
                    m,
                    (RecordV { state: RecordState::Removed, ..c.records[m] }),
                );
            }
        },
        EventKindV::RecoveryRecord { result_id } => {
            if let Some(m) = find_record(c.records, result_id) {
                lemma_find_record(c.records, result_id);
                lemma_update_same_id_unique(
                    c.records,
                    m,
                    (RecordV { state: RecordState::Checkered, ..c.records[m] }),
                );
            }
        },
        EventKindV::ChangeRecordPylonTouchCount { result_id, count } => {
            if let Some(m) = find_record(c.records, result_id) {
                lemma_find_record(c.records, result_id);
                lemma_update_same_id_unique(
                    c.records,
                    m,
                    (RecordV { pylon_touch_count: count, ..c.records[m] }),
                );
            }
        },
        EventKindV::ChangeRecordDerailmentCount { result_id, count } => {
            if let Some(m) = find_record(c.records, result_id) {
                lemma_find_record(c.records, result_id);
                lemma_update_same_id_unique(
                    c.records,
                    m,
                    (RecordV { derailment_count: count, ..c.records[m] }),
                );
            }
        },
        EventKindV::ChangeRecordType { result_id, record_type } => {
            if let Some(m) = find_record(c.records, result_id) {
                lemma_find_record(c.records, result_id);
                lemma_update_same_id_unique(
                    c.records,
                    m,
                    (RecordV { record_type, ..c.records[m] }),
                );
            }
        },
        _ => {},
    }
}

/// A terminal event keeps record ids unique.
proof fn lemma_terminate_record_unique(
    c: CompetitionV,
    ts: u64,
    track_id: Seq<char>,
    entry: Option<Seq<char>>,
    result_id: Seq<char>,
    state: RecordState,
)
    requires
        record_ids_unique(c.records),
    ensures
        record_ids_unique(comp_terminate_spec(c, ts, track_id, entry, result_id, state).0.records),
{
    let post = comp_terminate_spec(c, ts, track_id, entry, result_id, state).0;
    if post.records != c.records {
        if let Some(k) = find_track(c.tracks, track_id) {
            let step = track_terminate_spec(c.tracks[k].track, ts, entry, result_id, state);
            if let Ok(rec) = step.1 {
                lemma_upsert_record_unique(c.records, rec);
            }
        }
    }
}

/// Whether every track respects its concurrent-entrant bound.
pub open spec fn tracks_within_limits(c: CompetitionV) -> bool {
    forall|i: int|
        0 <= i < c.tracks.len() ==> #[trigger] c.tracks[i].track.running_cars.len()
            <= c.tracks[i].track.overlap_limit
}

/// Replacing one track with a within-bound one keeps every track within
/// bound.
proof fn lemma_with_track_limits(c: CompetitionV, k: int, t: TrackV)
    requires
        tracks_within_limits(c),
        0 <= k < c.tracks.len(),
        t.running_cars.len() <= t.overlap_limit,
    ensures
        tracks_within_limits(with_track(c, k, t)),
{
    let post = with_track(c, k, t);
    assert forall|i: int|
        0 <= i < post.tracks.len() implies #[trigger] post.tracks[i].track.running_cars.len()
        <= post.tracks[i].track.overlap_limit by {
        if i != k {
            assert(post.tracks[i] == c.tracks[i]);
        }
    }
}

/// A terminal event leaves the addressed track's running queue no longer
/// than it was.
proof fn lemma_terminate_limits(
    c: CompetitionV,
    ts: u64,
    track_id: Seq<char>,
    entry: Option<Seq<char>>,
    result_id: Seq<char>,
    state: RecordState,
)
    requires
        tracks_within_limits(c),
    ensures
        tracks_within_limits(comp_terminate_spec(c, ts, track_id, entry, result_id, state).0),
{
    let post = comp_terminate_spec(c, ts, track_id, entry, result_id, state).0;
    if let Some(k) = find_track(c.tracks, track_id) {
        lemma_find_track(c.tracks, track_id);
        let t = c.tracks[k].track;
        if let Some(e) = entry {
            crate::track::lemma_find_car(t.running_cars, e);
        }
        let step = track_terminate_spec(t, ts, entry, result_id, state);
        assert(step.0.running_cars.len() <= t.running_cars.len());
        lemma_with_track_limits(c, k, step.0);
        assert(post.tracks == with_track(c, k, step.0).tracks || post.tracks == c.tracks);
    }
}

/// No command can push a track beyond its concurrent-entrant bound: a start
/// is refused at the bound, and every other command leaves the running
/// queue no longer than it was.
pub proof fn lemma_apply_preserves_limits(c: CompetitionV, e: EventV)
    requires
        tracks_within_limits(c),
    ensures
        tracks_within_limits(comp_apply_spec(c, e).0),
{
    match e.kind {
        EventKindV::RegisterNextCar { track_id, competition_entry_id } => {
            if let Some(k) = find_track(c.tracks, track_id) {
                lemma_find_track(c.tracks, track_id);
                lemma_with_track_limits(
                    c,
                    k,
                    track_register_spec(c.tracks[k].track, competition_entry_id),
                );
            }
        },
        EventKindV::Start { track_id } => {
            if let Some(k) = find_track(c.tracks, track_id) {
                lemma_find_track(c.tracks, track_id);
                let step = track_start_spec(c.tracks[k].track, e.time_stamp);
                lemma_with_track_limits(c, k, step.0);
            }
        },
        EventKindV::Stop { result_id, track_id, competition_entry_id } => {
            lemma_terminate_limits(
                c,
                e.time_stamp,
                track_id,
                competition_entry_id,
                result_id,
                RecordState::Checkered,
            );
        },
        EventKindV::RedFlag { track_id } => {
            if let Some(k) = find_track(c.tracks, track_id) {
                lemma_find_track(c.tracks, track_id);
                lemma_with_track_limits(c, k, track_red_flag_spec(c.tracks[k].track));
            }
        },
        EventKindV::AddPylonTouch { track_id, competition_entry_id } => {
            lemma_bump_limits(c, track_id, competition_entry_id, true, true);
        },
        EventKindV::RemovePylonTouch { track_id, competition_entry_id } => {
            lemma_bump_limits(c, track_id, competition_entry_id, true, false);
        },
        EventKindV::AddDerailment { track_id, competition_entry_id } => {
            lemma_bump_limits(c, track_id, competition_entry_id, false, true);
        },
        EventKindV::RemoveDerailment { track_id, competition_entry_id } => {
            lemma_bump_limits(c, track_id, competition_entry_id, false, false);
        },
        EventKindV::MarkDNF { result_id, track_id, competition_entry_id } => {
            lemma_terminate_limits(
                c,
                e.time_stamp,
                track_id,
                Some(competition_entry_id),
                result_id,
                RecordState::DidNotFinished,
            );
        },
        EventKindV::MarkMissCourse { result_id, track_id, competition_entry_id } => {
            lemma_terminate_limits(
                c,
                e.time_stamp,
                track_id,
                Some(competition_entry_id),
                result_id,
                RecordState::MissCourse,
            );
        },
        EventKindV::SetTrackRecordType { track_id, record_type } => {
            if let Some(k) = find_track(c.tracks, track_id) {
                lemma_find_track(c.tracks, track_id);
                lemma_with_track_limits(
                    c,
                    k,
                    track_set_record_type_spec(c.tracks[k].track, record_type),
                );
            }
        },
        _ => {
            assert(comp_apply_spec(c, e).0.tracks == c.tracks);
        },
    }
}

/// A counter correction keeps every track within bound: it only updates one
/// running entrant in place.
proof fn lemma_bump_limits(
    c: CompetitionV,
    track_id: Seq<char>,
    entry: Seq<char>,
    pylon: bool,
    up: bool,
)
    requires
        tracks_within_limits(c),
    ensures
        tracks_within_limits(comp_bump_spec(c, track_id, entry, pylon, up).0),
{
    if let Some(k) = find_track(c.tracks, track_id) {
        lemma_find_track(c.tracks, track_id);
        let t = c.tracks[k].track;
        crate::track::lemma_find_car(t.running_cars, entry);
        let step = track_bump_spec(t, entry, pylon, up);
        lemma_with_track_limits(c, k, step.0);
    }
}

/// A freshly built competition has nobody running on any track.
pub proof fn lemma_build_tracks_empty(cfg: Seq<TrackSetupV>)
    ensures
        forall|i: int|
            0 <= i < build_tracks_spec(cfg).len() ==> #[trigger] build_tracks_spec(
                cfg,
            )[i].track.running_cars.len() == 0,
    decreases cfg.len(),
{
    if cfg.len() > 0 {
        lemma_build_tracks_empty(cfg.drop_last());
        let prev = build_tracks_spec(cfg.drop_last());
        let entry = TrackEntryV {
            id: cfg.last().id,
            track: fresh_track(cfg.last().overlap_limit),
        };
        lemma_find_track(prev, entry.id);
    }
}

impl Competition {
    /// Apply one command: route it to the addressed track or record and
    /// report the outcome. The exec counterpart of `comp_apply_spec`.
    pub fn command(&mut self, event: &CompetitionEvent) -> (r: Result<(), TimingError>)
        ensures
            final(self)@ == comp_apply_spec(old(self)@, event@).0,
            r == comp_apply_spec(old(self)@, event@).1,
    {
        match &event.kind {
            CompetitionEventKind::RegisterNextCar { track_id, competition_entry_id } => {
                self.register_next_car(track_id, competition_entry_id)
            },
            CompetitionEventKind::Start { track_id } => self.start(event.time_stamp, track_id),
            CompetitionEventKind::Stop { result_id, track_id, competition_entry_id } => {
                let entry = match competition_entry_id {
                    Some(e) => Some(e),
                    None => None,
                };
                self.stop(event.time_stamp, track_id, entry, result_id)
            },
            CompetitionEventKind::RedFlag { track_id } => {
                self.red_flag(event.time_stamp, track_id)
            },
            CompetitionEventKind::AddPylonTouch { track_id, competition_entry_id } => {
                self.add_touched_pylon_count(track_id, competition_entry_id)
            },
            CompetitionEventKind::RemovePylonTouch { track_id, competition_entry_id } => {
                self.remove_touched_pylon_count(track_id, competition_entry_id)
            },
            CompetitionEventKind::AddDerailment { track_id, competition_entry_id } => {
                self.add_derailment_count(track_id, competition_entry_id)
            },
            CompetitionEventKind::RemoveDerailment { track_id, competition_entry_id } => {
                self.remove_derailment_count(track_id, competition_entry_id)
            },
            CompetitionEventKind::MarkDNF { result_id, track_id, competition_entry_id } => {
                self.did_not_finished(event.time_stamp, track_id, competition_entry_id, result_id)
            },
            CompetitionEventKind::MarkMissCourse { result_id, track_id, competition_entry_id } => {
                self.miss_course(event.time_stamp, track_id, competition_entry_id, result_id)
            },
            CompetitionEventKind::MarkDNFToRecord { result_id } => {
                self.mark_dnf_to_record(result_id)
            },
            CompetitionEventKind::MarkMissCourseToRecord { result_id } => {
                self.mark_miss_course_to_record(result_id)
            },
            CompetitionEventKind::RemoveRecord { result_id } => {
                self.mark_removed_to_record(result_id)
            },
            CompetitionEventKind::RecoveryRecord { result_id } => {
                self.recovery_record(result_id)
            },
            CompetitionEventKind::ChangeRecordPylonTouchCount { result_id, count } => {
                self.change_pylon_touch_count_of_record(result_id, *count)
            },
            CompetitionEventKind::ChangeRecordDerailmentCount { result_id, count } => {
                self.change_derailment_count_of_record(result_id, *count)
            },
            CompetitionEventKind::ChangeRecordType { result_id, record_type } => {
                self.change_record_type(result_id, record_type.as_str())
            },
            CompetitionEventKind::SetTrackRecordType { track_id, record_type } => {
                self.set_track_record_type(track_id, record_type.as_str())
            },
        }
    }
}

} // verus!
