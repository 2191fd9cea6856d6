//! One lane/course: a pending entrant slot plus a bounded FIFO of running
//! entrants, each on its own timer. Terminal events produce records.

use vstd::prelude::*;

use crate::errors::TimingError;
use crate::ids::CompetitionEntryId;
use crate::record::{Record, RecordState, RecordV};
use crate::timer::{timer_start_spec, timer_stop_spec, Timer, TimerState};

verus! {

/// Mathematical model of a running entrant.
pub struct CarV {
    pub id: Seq<char>,
    pub timer: TimerState,
    pub touched_pylon_count: u32,
    pub derailment_count: u32,
}

/// An entrant currently on (or about to enter) the clock.
#[derive(Debug)]
pub struct RunningCar {
    pub(crate) timer: Timer,
    pub(crate) id: CompetitionEntryId,
    pub(crate) touched_pylon_count: u32,
    pub(crate) derailment_count: u32,
}

impl View for RunningCar {
    type V = CarV;

    closed spec fn view(&self) -> CarV {
        CarV {
            id: self.id@,
            timer: self.timer@,
            touched_pylon_count: self.touched_pylon_count,
            derailment_count: self.derailment_count,
        }
    }
}

/// The model of a freshly registered entrant.
pub open spec fn fresh_car(id: Seq<char>) -> CarV {
    CarV { id, timer: TimerState::NotStarted, touched_pylon_count: 0, derailment_count: 0 }
}

impl RunningCar {
    /// A fresh entrant with a timer that has never run and zeroed counters.
    pub fn new(id: CompetitionEntryId) -> (r: RunningCar)
        ensures
            r@ == fresh_car(id@),
    {
        RunningCar { timer: Timer::new(), id, touched_pylon_count: 0, derailment_count: 0 }
    }

    /// The entrant's identifier.
    pub fn get_id(&self) -> (r: &CompetitionEntryId)
        ensures
            r@ == self@.id,
    {
        &self.id
    }
}

/// A counter moved one step up or down, saturating at both ends: a
/// correction below zero clamps at zero instead of wrapping, as an explicit
/// policy choice.
pub open spec fn bump(c: u32, up: bool) -> u32 {
    if up {
        if c < u32::MAX {
            (c + 1) as u32
        } else {
            c
        }
    } else {
        if c > 0 {
            (c - 1) as u32
        } else {
            0
        }
    }
}

/// Mathematical model of a track.
pub struct TrackV {
    pub pending_car: Option<CarV>,
    pub running_cars: Seq<CarV>,
    pub overlap_limit: u32,
    pub record_type: Seq<char>,
}

/// The first index in `s` of a car with the given id, if any.
pub open spec fn find_car(s: Seq<CarV>, id: Seq<char>) -> Option<int>
    decreases s.len(),
{
    if s.len() == 0 {
        None
    } else if s[0].id == id {
        Some(0)
    } else {
        match find_car(s.drop_first(), id) {
            Some(i) => Some(i + 1),
            None => None,
        }
    }
}

/// `find_car` returns the first matching index, or rules a match out.
pub proof fn lemma_find_car(s: Seq<CarV>, id: Seq<char>)
    ensures
        match find_car(s, id) {
            Some(i) => 0 <= i < s.len() && s[i].id == id && (forall|j: int|
                0 <= j < i ==> s[j].id != id),
            None => forall|j: int| 0 <= j < s.len() ==> s[j].id != id,
        },
    decreases s.len(),
{
    if s.len() != 0 && s[0].id != id {
        lemma_find_car(s.drop_first(), id);
        assert forall|j: int| 1 <= j < s.len() implies s.drop_first()[j - 1] == s[j] by {}
    }
}

/// What registering a next entrant does: always succeeds, last wins.
pub open spec fn track_register_spec(t: TrackV, entry_id: Seq<char>) -> TrackV {
    TrackV { pending_car: Some(fresh_car(entry_id)), ..t }
}

/// What starting the pending entrant does. Fails without a pending entrant,
/// or when the concurrent-entrant bound is already reached; otherwise starts
/// the pending entrant's timer and moves it to the back of the running queue.
pub open spec fn track_start_spec(t: TrackV, ts: u64) -> (TrackV, Result<(), TimingError>) {
    match t.pending_car {
        None => (t, Err(TimingError::TrackNextCarNotRegistered)),
        Some(car) => {
            if t.running_cars.len() >= t.overlap_limit {
                (t, Err(TimingError::TrackOverlapLimitExceeded))
            } else {
                let step = timer_start_spec(car.timer, ts);
                match step.1 {
                    Ok(()) => (
                        TrackV {
                            pending_car: None,
                            running_cars: t.running_cars.push(CarV { timer: step.0, ..car }),
                            ..t
                        },
                        Ok(()),
                    ),
                    Err(e) => (t, Err(e)),
                }
            }
        },
    }
}

/// What any terminal event (stop, DNF, miss-course) does. The addressed
/// entrant — by id, or the FIFO head when no id is given — leaves the running
/// queue and a record in `state` is produced from its timer and counters.
/// On any failure the track is unchanged.
pub open spec fn track_terminate_spec(
    t: TrackV,
    ts: u64,
    entry: Option<Seq<char>>,
    result_id: Seq<char>,
    state: RecordState,
) -> (TrackV, Result<RecordV, TimingError>) {
    let found = match entry {
        Some(e) => match find_car(t.running_cars, e) {
            Some(i) => Ok(i),
            None => Err(TimingError::TrackSpecifiedCarNotFound),
        },
        None => if t.running_cars.len() == 0 {
            Err(TimingError::TrackNobodyRunning)
        } else {
            Ok(0int)
        },
    };
    match found {
        Err(e) => (t, Err(e)),
        Ok(i) => {
            let car = t.running_cars[i];
            let step = timer_stop_spec(car.timer, ts);
            match step.1 {
                Err(e) => (t, Err(e)),
                Ok(()) => {
                    let d = match step.0 {
                        TimerState::Stopped { duration } => duration,
                        _ => 0,
                    };
                    (
                        TrackV { running_cars: t.running_cars.remove(i), ..t },
                        Ok(
                            (RecordV {
                                id: result_id,
                                state,
                                duration: d,
                                competition_entry_id: car.id,
                                pylon_touch_count: car.touched_pylon_count,
                                derailment_count: car.derailment_count,
                                record_type: t.record_type,
                                timestamp: ts,
                            }),
                        ),
                    )
                },
            }
        },
    }
}

/// What a red flag does: every running entrant is discarded, no record is
/// produced, the pending entrant stays.
pub open spec fn track_red_flag_spec(t: TrackV) -> TrackV {
    TrackV { running_cars: Seq::empty(), ..t }
}

/// What a counter correction does to the addressed running entrant.
/// `pylon` selects the counter, `up` the direction.
pub open spec fn track_bump_spec(t: TrackV, entry: Seq<char>, pylon: bool, up: bool) -> (
    TrackV,
    Result<(), TimingError>,
) {
    match find_car(t.running_cars, entry) {
        None => (t, Err(TimingError::TrackSpecifiedCarNotFound)),
        Some(i) => {
            let car = t.running_cars[i];
            let car2 = if pylon {
                CarV { touched_pylon_count: bump(car.touched_pylon_count, up), ..car }
            } else {
                CarV { derailment_count: bump(car.derailment_count, up), ..car }
            };
            (TrackV { running_cars: t.running_cars.update(i, car2), ..t }, Ok(()))
        },
    }
}

/// What overwriting the track's record type does: later records carry it,
/// existing records are untouched.
pub open spec fn track_set_record_type_spec(t: TrackV, record_type: Seq<char>) -> TrackV {
    TrackV { record_type, ..t }
}

/// One lane/course of the competition.
#[derive(Debug)]
pub struct Track {
    pub(crate) running_cars: Vec<RunningCar>,
    pub(crate) pending_car: Option<RunningCar>,
    pub(crate) overlap_limit: u32,
    pub(crate) record_type: String,
}

impl View for Track {
    type V = TrackV;

    closed spec fn view(&self) -> TrackV {
        TrackV {
            pending_car: match self.pending_car {
                Some(car) => Some(car@),
                None => None,
            },
            running_cars: self.running_cars@.map_values(|c: RunningCar| c@),
            overlap_limit: self.overlap_limit,
            record_type: self.record_type@,
        }
    }
}

impl Track {
    /// A fresh track with the given concurrent-entrant bound, nobody pending,
    /// nobody running, and the default record type.
    pub fn new(overlap_limit: u32) -> (r: Track)
        ensures
            r@ == (TrackV {
                pending_car: None,
                running_cars: Seq::empty(),
                overlap_limit,
                record_type: "Free"@,
            }),
    {
        let r = Track {
            running_cars: Vec::new(),
            pending_car: None,
            overlap_limit,
            record_type: "Free".to_owned(),
        };
        proof {
            assert(r@.running_cars =~= Seq::<CarV>::empty());
        }
        r
    }

    /// Register the next entrant; overwrites any present pending entrant.
    pub fn register_next_car(&mut self, competition_entry_id: CompetitionEntryId) -> (r: Result<
        (),
        TimingError,
    >)
        ensures
            final(self)@ == track_register_spec(old(self)@, competition_entry_id@),
            r == Ok::<(), TimingError>(()),
    {
        self.pending_car = Some(RunningCar::new(competition_entry_id));
        Ok(())
    }

    /// Start the pending entrant at `ts`.
    pub fn start(&mut self, ts: u64) -> (r: Result<(), TimingError>)
        ensures
            final(self)@ == track_start_spec(old(self)@, ts).0,
            r == track_start_spec(old(self)@, ts).1,
    {
        if self.pending_car.is_some() {
            if self.running_cars.len() >= self.overlap_limit as usize {
                return Err(TimingError::TrackOverlapLimitExceeded);
            }
            let mut car = self.pending_car.take().unwrap();
            match car.timer.start(ts) {
                Ok(()) => {
                    self.running_cars.push(car);
                    proof {
                        assert(self@.running_cars =~= track_start_spec(old(self)@, ts).0.running_cars);
                    }
                    Ok(())
                },
                Err(e) => {
                    self.pending_car = Some(car);
                    Err(e)
                },
            }
        } else {
            Err(TimingError::TrackNextCarNotRegistered)
        }
    }

    /// The first index of a running entrant with the given id.
    fn find_running_car_index(&self, id: &CompetitionEntryId) -> (r: Option<usize>)
        ensures
            match r {
                Some(i) => find_car(self@.running_cars, id@) == Some(i as int),
                None => find_car(self@.running_cars, id@) is None,
            },
    {
        let n = self.running_cars.len();
        let mut i: usize = 0;
        while i < n
            invariant
                n == self.running_cars.len(),
                0 <= i <= n,
                forall|j: int| 0 <= j < i ==> self@.running_cars[j].id != id@,
            decreases n - i,
        {
            if self.running_cars[i].id == *id {
                proof {
                    let s = self@.running_cars;
                    lemma_find_car(s, id@);
                    assert(s[i as int].id == id@);
                    if let Some(k) = find_car(s, id@) {
                        assert(!(k < i as int));
                        assert(!((i as int) < k));
                    }
                }
                return Some(i);
            }
            i += 1;
        }
        proof {
            lemma_find_car(self@.running_cars, id@);
        }
        None
    }

    /// Stop an entrant at `ts`: by id when one is given, else the FIFO head.
    /// Produces the checkered record under `result_id`.
    pub fn stop(
        &mut self,
        ts: u64,
        competition_entry_id: Option<CompetitionEntryId>,
        result_id: String,
    ) -> (r: Result<Record, TimingError>)
        ensures
            final(self)@ == track_terminate_spec(
                old(self)@,
                ts,
                match competition_entry_id {
                    Some(e) => Some(e@),
                    None => None,
                },
                result_id@,
                RecordState::Checkered,
            ).0,
            (match r {
                Ok(rec) => Ok(rec@),
                Err(e) => Err(e),
            }) == track_terminate_spec(
                old(self)@,
                ts,
                match competition_entry_id {
                    Some(e) => Some(e@),
                    None => None,
                },
                result_id@,
                RecordState::Checkered,
            ).1,
    {
        let entry_ref = match &competition_entry_id {
            Some(e) => Some(e),
            None => None,
        };
        self.terminate(ts, entry_ref, result_id, RecordState::Checkered)
    }

    /// Discard every running entrant; no record is produced.
    pub fn red_flag(&mut self, _ts: u64) -> (r: Result<(), TimingError>)
        ensures
            final(self)@ == track_red_flag_spec(old(self)@),
            r == Ok::<(), TimingError>(()),
    {
        self.running_cars = Vec::new();
        proof {
            assert(self@.running_cars =~= Seq::<CarV>::empty());
        }
        Ok(())
    }

    /// Remove the addressed entrant as a miss-course, producing its record.
    pub fn miss_course(
        &mut self,
        ts: u64,
        competition_entry_id: &CompetitionEntryId,
        result_id: String,
    ) -> (r: Result<Record, TimingError>)
        ensures
            final(self)@ == track_terminate_spec(
                old(self)@,
                ts,
                Some(competition_entry_id@),
                result_id@,
                RecordState::MissCourse,
            ).0,
            (match r {
                Ok(rec) => Ok(rec@),
                Err(e) => Err(e),
            }) == track_terminate_spec(
                old(self)@,
                ts,
                Some(competition_entry_id@),
                result_id@,
                RecordState::MissCourse,
            ).1,
    {
        self.terminate(ts, Some(competition_entry_id), result_id, RecordState::MissCourse)
    }

    /// Remove the addressed entrant as a DNF, producing its record.
    pub fn did_not_finished(
        &mut self,
        ts: u64,
        competition_entry_id: &CompetitionEntryId,
        result_id: String,
    ) -> (r: Result<Record, TimingError>)
        ensures
            final(self)@ == track_terminate_spec(
                old(self)@,
                ts,
                Some(competition_entry_id@),
                result_id@,
                RecordState::DidNotFinished,
            ).0,
            (match r {
                Ok(rec) => Ok(rec@),
                Err(e) => Err(e),
            }) == track_terminate_spec(
                old(self)@,
                ts,
                Some(competition_entry_id@),
                result_id@,
                RecordState::DidNotFinished,
            ).1,
    {
        self.terminate(ts, Some(competition_entry_id), result_id, RecordState::DidNotFinished)
    }

    /// Shared body of the terminal events.
    pub(crate) fn terminate(
        &mut self,
        ts: u64,
        competition_entry_id: Option<&CompetitionEntryId>,
        result_id: String,
        state: RecordState,
    ) -> (r: Result<Record, TimingError>)
        ensures
            final(self)@ == track_terminate_spec(
                old(self)@,
                ts,
                match competition_entry_id {
                    Some(e) => Some(e@),
                    None => None,
                },
                result_id@,
                state,
            ).0,
            (match r {
                Ok(rec) => Ok(rec@),
                Err(e) => Err(e),
            }) == track_terminate_spec(
                old(self)@,
                ts,
                match competition_entry_id {
                    Some(e) => Some(e@),
                    None => None,
                },
                result_id@,
                state,
            ).1,
    {
        let car_index: usize = match competition_entry_id {
            Some(e) => match self.find_running_car_index(e) {
                Some(i) => i,
                None => {
                    return Err(TimingError::TrackSpecifiedCarNotFound);
                },
            },
            None => {
                if self.running_cars.len() == 0 {
                    return Err(TimingError::TrackNobodyRunning);
                }
                0
            },
        };
        proof {
            if let Some(e) = competition_entry_id {
                lemma_find_car(self@.running_cars, e@);
            }
        }
        let mut car = self.running_cars.remove(car_index);
        proof {
            assert(car@ == old(self)@.running_cars[car_index as int]);
        }
        match car.timer.stop(ts) {
            Err(e) => {
                self.running_cars.insert(car_index, car);
                proof {
                    assert(self@.running_cars =~= old(self)@.running_cars);
                }
                Err(e)
            },
            Ok(()) => {
                let duration = match car.timer.state() {
                    TimerState::Stopped { duration } => duration,
                    _ => 0,
                };
                proof {
                    assert(self@.running_cars =~= old(self)@.running_cars.remove(
                        car_index as int,
                    ));
                }
                Ok(
                    Record::new(
                        result_id,
                        state,
                        duration,
                        car.id.get().to_owned(),
                        car.touched_pylon_count,
                        car.derailment_count,
                        self.record_type.clone(),
                        ts,
                    ),
                )
            },
        }
    }

    /// Shared body of the four counter corrections.
    pub(crate) fn bump_counter(&mut self, competition_entry_id: &CompetitionEntryId, pylon: bool, up: bool) -> (r:
        Result<(), TimingError>)
        ensures
            final(self)@ == track_bump_spec(old(self)@, competition_entry_id@, pylon, up).0,
            r == track_bump_spec(old(self)@, competition_entry_id@, pylon, up).1,
    {
        let car_index: usize = match self.find_running_car_index(competition_entry_id) {
            Some(i) => i,
            None => {
                return Err(TimingError::TrackSpecifiedCarNotFound);
            },
        };
        proof {
            lemma_find_car(old(self)@.running_cars, competition_entry_id@);
        }
        let mut car = self.running_cars.remove(car_index);
        if pylon {
            car.touched_pylon_count = if up {
                if car.touched_pylon_count < u32::MAX {
                    car.touched_pylon_count + 1
                } else {
                    car.touched_pylon_count
                }
            } else {
                if car.touched_pylon_count > 0 {
                    car.touched_pylon_count - 1
                } else {
                    0
                }
            };
        } else {
            car.derailment_count = if up {
                if car.derailment_count < u32::MAX {
                    car.derailment_count + 1
                } else {
                    car.derailment_count
                }
            } else {
                if car.derailment_count > 0 {
                    car.derailment_count - 1
                } else {
                    0
                }
            };
        }
        self.running_cars.insert(car_index, car);
        proof {
            let i = car_index as int;
            let t = old(self)@;
            assert(self@.running_cars =~= t.running_cars.update(
                i,
                track_bump_spec(t, competition_entry_id@, pylon, up).0.running_cars[i],
            ));
        }
        Ok(())
    }

    /// Increment the addressed entrant's pylon-touch counter.
    pub fn add_touched_pylon_count(&mut self, competition_entry_id: &CompetitionEntryId) -> (r:
        Result<(), TimingError>)
        ensures
            final(self)@ == track_bump_spec(old(self)@, competition_entry_id@, true, true).0,
            r == track_bump_spec(old(self)@, competition_entry_id@, true, true).1,
    {
        self.bump_counter(competition_entry_id, true, true)
    }

    /// Decrement the addressed entrant's pylon-touch counter.
    pub fn remove_touched_pylon_count(&mut self, competition_entry_id: &CompetitionEntryId) -> (r:
        Result<(), TimingError>)
        ensures
            final(self)@ == track_bump_spec(old(self)@, competition_entry_id@, true, false).0,
            r == track_bump_spec(old(self)@, competition_entry_id@, true, false).1,
    {
        self.bump_counter(competition_entry_id, true, false)
    }

    /// Increment the addressed entrant's derailment counter.
    pub fn add_derailment_count(&mut self, competition_entry_id: &CompetitionEntryId) -> (r: Result<
        (),
        TimingError,
    >)
        ensures
            final(self)@ == track_bump_spec(old(self)@, competition_entry_id@, false, true).0,
            r == track_bump_spec(old(self)@, competition_entry_id@, false, true).1,
    {
        self.bump_counter(competition_entry_id, false, true)
    }

    /// Decrement the addressed entrant's derailment counter.
    pub fn remove_derailment_count(&mut self, competition_entry_id: &CompetitionEntryId) -> (r:
        Result<(), TimingError>)
        ensures
            final(self)@ == track_bump_spec(old(self)@, competition_entry_id@, false, false).0,
            r == track_bump_spec(old(self)@, competition_entry_id@, false, false).1,
    {
        self.bump_counter(competition_entry_id, false, false)
    }

    /// Overwrite the record type applied to subsequently created records.
    pub fn set_record_type(&mut self, record_type: &str) -> (r: Result<(), TimingError>)
        ensures
            final(self)@ == track_set_record_type_spec(old(self)@, record_type@),
            r == Ok::<(), TimingError>(()),
    {
        self.record_type = record_type.to_owned();
        Ok(())
    }

    /// The id of the pending entrant, if one is registered.
    pub fn pending_entry_id(&self) -> (r: Option<&CompetitionEntryId>)
        ensures
            match r {
                Some(e) => self@.pending_car is Some && e@ == self@.pending_car.unwrap().id,
                None => self@.pending_car is None,
            },
    {
        match &self.pending_car {
            Some(car) => Some(&car.id),
            None => None,
        }
    }

    /// The running entrants' ids, FIFO order.
    pub fn running_ids(&self) -> (r: Vec<String>)
        ensures
            r@.map_values(|s: String| s@) =~= self@.running_cars.map_values(|c: CarV| c.id),
    {
        let mut out: Vec<String> = Vec::new();
        let n = self.running_cars.len();
        let mut i: usize = 0;
        while i < n
            invariant
                n == self.running_cars.len(),
                0 <= i <= n,
                out@.len() == i,
                forall|j: int| 0 <= j < i ==> out@[j]@ == self@.running_cars[j].id,
            decreases n - i,
        {
            out.push(self.running_cars[i].id.get().to_owned());
            i += 1;
        }
        out
    }

    /// The concurrent-entrant bound.
    pub fn get_overlap_limit(&self) -> (r: u32)
        ensures
            r == self@.overlap_limit,
    {
        self.overlap_limit
    }

    /// The record type currently applied to new records.
    pub fn get_record_type(&self) -> (r: &str)
        ensures
            r@ == self@.record_type,
    {
        self.record_type.as_str()
    }
}

} // verus!
