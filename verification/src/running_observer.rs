//! The standalone running observer: every car currently on the clock, with
//! the start timestamp and the metadata it was consumed with.
//!
//! A start consumes the next car from a queue — falling back to a default
//! metadata text when the queue is empty — and a stop files the measured
//! duration into a record sink. Both collaborators stand behind traits that
//! their implementations in this library satisfy.

use vstd::prelude::*;

use crate::ids::generate_id;
use crate::pending_queue::{compile_schema_text, meta_accepted, schema_accepts, schema_compiles, NextCarQueue};
use crate::records::RecordService;

verus! {

/// Error kinds of the running observer.
#[derive(Clone, Copy, Debug, PartialEq, Eq, Structural)]
pub enum ObserverError {
    /// A stop arrived while nobody was running.
    NobodyRunning,
    /// No running car carries the given id.
    NoSuchCar,
    /// The metadata text is not JSON accepted by the schema.
    MetadataValidationFailed,
    /// A stop carried a timestamp earlier than the car's start.
    NegativeDuration,
}

/// Model of one observed car.
pub struct ObservedCarV {
    pub car_id: Seq<char>,
    pub start_at: u64,
    pub meta: Seq<char>,
}

/// One car on the clock.
#[derive(Debug)]
pub struct RunningCar {
    car_id: String,
    start_at: u64,
    meta: String,
}

impl View for RunningCar {
    type V = ObservedCarV;

    closed spec fn view(&self) -> ObservedCarV {
        ObservedCarV { car_id: self.car_id@, start_at: self.start_at, meta: self.meta@ }
    }
}

impl RunningCar {
    /// The car's generated id.
    pub fn car_id(&self) -> (r: &String)
        ensures
            r@ == self@.car_id,
    {
        &self.car_id
    }

    /// When the car started, in milliseconds.
    pub fn start_at(&self) -> (r: u64)
        ensures
            r == self@.start_at,
    {
        self.start_at
    }

    /// The car's metadata text.
    pub fn meta(&self) -> (r: &String)
        ensures
            r@ == self@.meta,
    {
        &self.meta
    }
}

/// The first index in `s` of a car with the given id, if any.
pub open spec fn find_observed(s: Seq<ObservedCarV>, id: Seq<char>) -> Option<int>
    decreases s.len(),
{
    if s.len() == 0 {
        None
    } else if s[0].car_id == id {
        Some(0)
    } else {
        match find_observed(s.drop_first(), id) {
            Some(i) => Some(i + 1),
            None => None,
        }
    }
}

/// `find_observed` returns the first matching index, or rules a match out.
pub proof fn lemma_find_observed(s: Seq<ObservedCarV>, id: Seq<char>)
    ensures
        match find_observed(s, id) {
            Some(i) => 0 <= i < s.len() && s[i].car_id == id && (forall|j: int|
                0 <= j < i ==> s[j].car_id != id),
            None => forall|j: int| 0 <= j < s.len() ==> s[j].car_id != id,
        },
    decreases s.len(),
{
    if s.len() != 0 && s[0].car_id != id {
        lemma_find_observed(s.drop_first(), id);
        assert forall|j: int| 1 <= j < s.len() implies s.drop_first()[j - 1] == s[j] by {}
    }
}

/// The observer: running cars in start order, over a next-car queue and a
/// record sink.
#[derive(Debug)]
pub struct RunningObserver<Q: NextCarQueue, R: RecordService> {
    running_car: Vec<RunningCar>,
    schema: String,
    default_meta: String,
    next_car_queue: Q,
    record_service: R,
}

impl<Q: NextCarQueue, R: RecordService> View for RunningObserver<Q, R> {
    type V = Seq<ObservedCarV>;

    closed spec fn view(&self) -> Seq<ObservedCarV> {
        self.running_car@.map_values(|c: RunningCar| c@)
    }
}

impl<Q: NextCarQueue, R: RecordService> RunningObserver<Q, R> {
    /// The schema metadata updates are validated against.
    pub closed spec fn schema_spec(&self) -> Seq<char> {
        self.schema@
    }

    /// The metadata used when the queue has nothing to consume.
    pub closed spec fn default_meta_spec(&self) -> Seq<char> {
        self.default_meta@
    }

    /// The queue cars are consumed from.
    pub closed spec fn queue_ref(&self) -> Q {
        self.next_car_queue
    }

    /// The sink stopped runs are filed into.
    pub closed spec fn sink_ref(&self) -> R {
        self.record_service
    }

    /// Well-formedness: the schema compiles and accepts the default, and
    /// both collaborators satisfy their own invariants.
    pub open spec fn wf(&self) -> bool {
        &&& schema_compiles(self.schema_spec())
        &&& schema_accepts(self.schema_spec(), self.default_meta_spec())
        &&& self.queue_ref().queue_wf()
        &&& self.sink_ref().sink_wf()
    }

    /// An observer with nobody running.
    pub fn new(schema: String, default_meta: String, next_car_queue: Q, record_service: R) -> (r:
        RunningObserver<Q, R>)
        requires
            schema_compiles(schema@),
            schema_accepts(schema@, default_meta@),
            next_car_queue.queue_wf(),
            record_service.sink_wf(),
        ensures
            r.wf(),
            r.schema_spec() == schema@,
            r.default_meta_spec() == default_meta@,
            r.queue_ref() == next_car_queue,
            r.sink_ref() == record_service,
            r@ =~= Seq::<ObservedCarV>::empty(),
    {
        let r = RunningObserver {
            running_car: Vec::new(),
            schema,
            default_meta,
            next_car_queue,
            record_service,
        };
        proof {
            assert(r@ =~= Seq::<ObservedCarV>::empty());
        }
        r
    }

    /// An observer over the given texts, refused unless the schema compiles
    /// and accepts the default metadata.
    pub fn try_new(
        schema: String,
        default_meta: String,
        next_car_queue: Q,
        record_service: R,
    ) -> (r: Option<RunningObserver<Q, R>>)
        requires
            next_car_queue.queue_wf(),
            record_service.sink_wf(),
        ensures
            match r {
                Some(obs) => obs.wf() && obs.schema_spec() == schema@ && obs.default_meta_spec()
                    == default_meta@ && obs@ =~= Seq::<ObservedCarV>::empty(),
                None => !(schema_compiles(schema@) && schema_accepts(schema@, default_meta@)),
            },
    {
        if !compile_schema_text(&schema) {
            return None;
        }
        if !meta_accepted(&schema, &default_meta) {
            return None;
        }
        Some(RunningObserver::new(schema, default_meta, next_car_queue, record_service))
    }

    /// How many cars are running.
    pub fn running_count(&self) -> (r: usize)
        ensures
            r == self@.len(),
    {
        self.running_car.len()
    }

    /// The running car at `index`, if any.
    pub fn get_car(&self, index: usize) -> (r: Option<&RunningCar>)
        ensures
            match r {
                Some(c) => index < self@.len() && c@ == self@[index as int],
                None => index >= self@.len(),
            },
    {
        if index < self.running_car.len() {
            Some(&self.running_car[index])
        } else {
            None
        }
    }

    /// The record sink, for reading back what was filed.
    pub fn record_service(&self) -> (r: &R)
        ensures
            *r == self.sink_ref(),
    {
        &self.record_service
    }

    /// Start a run at `timestamp`: consume the next car's metadata from the
    /// queue — the default when the queue is empty — and put it on the
    /// clock under a fresh id, at the back of the running list.
    pub fn start(&mut self, timestamp: u64) -> (r: Result<(), ObserverError>)
        requires
            old(self).wf(),
        ensures
            final(self).wf(),
            r == Ok::<(), ObserverError>(()),
            final(self).schema_spec() == old(self).schema_spec(),
            final(self).default_meta_spec() == old(self).default_meta_spec(),
            final(self).sink_ref() == old(self).sink_ref(),
            final(self)@.len() == old(self)@.len() + 1,
            forall|m: int| 0 <= m < old(self)@.len() ==> final(self)@[m] == old(self)@[m],
            final(self)@.last().start_at == timestamp,
            final(self)@.last().car_id.len() == 21,
            final(self)@.last().meta == (if old(self).queue_ref().queue_model().len() == 0 {
                old(self).default_meta_spec()
            } else {
                old(self).queue_ref().queue_model()[0]
            }),
    {
        let consumed = self.next_car_queue.consume_next_car();
        let meta = match consumed {
            Some(m) => m,
            None => self.default_meta.clone(),
        };
        let car = RunningCar { car_id: generate_id(), start_at: timestamp, meta };
        self.running_car.push(car);
        Ok(())
    }

    /// Stop a run at `timestamp`: the addressed car — by id, or the head of
    /// the running list when no id is given — leaves the clock and its
    /// duration and metadata are filed into the record sink. On any failure
    /// nothing changes.
    pub fn stop(&mut self, timestamp: u64, car_id: &Option<String>) -> (r: Result<
        (),
        ObserverError,
    >)
        requires
            old(self).wf(),
        ensures
            final(self).wf(),
            final(self).schema_spec() == old(self).schema_spec(),
            final(self).default_meta_spec() == old(self).default_meta_spec(),
            final(self).queue_ref() == old(self).queue_ref(),
            ({
                let found = match car_id {
                    Some(id) => find_observed(old(self)@, id@),
                    None => if old(self)@.len() == 0 {
                        None
                    } else {
                        Some(0int)
                    },
                };
                match found {
                    None => {
                        &&& (r == Err::<(), ObserverError>(ObserverError::NobodyRunning) || r
                            == Err::<(), ObserverError>(ObserverError::NoSuchCar))
                        &&& (car_id is None ==> r == Err::<(), ObserverError>(
                            ObserverError::NobodyRunning,
                        ))
                        &&& (car_id is Some ==> r == Err::<(), ObserverError>(
                            ObserverError::NoSuchCar,
                        ))
                        &&& final(self)@ == old(self)@
                        &&& final(self).sink_ref() == old(self).sink_ref()
                    },
                    Some(i) => {
                        let car = old(self)@[i];
                        if timestamp >= car.start_at {
                            &&& r == Ok::<(), ObserverError>(())
                            &&& final(self)@ =~= old(self)@.remove(i)
                            &&& (final(self).sink_ref().sink_model() == old(
                                self,
                            ).sink_ref().sink_model().push(
                                ((timestamp - car.start_at) as u64, car.meta),
                            ) || final(self).sink_ref().sink_model() == old(
                                self,
                            ).sink_ref().sink_model())
                        } else {
                            &&& r == Err::<(), ObserverError>(ObserverError::NegativeDuration)
                            &&& final(self)@ == old(self)@
                            &&& final(self).sink_ref() == old(self).sink_ref()
                        }
                    },
                }
            }),
    {
        if self.running_car.len() == 0 {
            if car_id.is_some() {
                proof {
                    if let Some(id) = car_id {
                        lemma_find_observed(self@, id@);
                    }
                }
                return Err(ObserverError::NoSuchCar);
            }
            return Err(ObserverError::NobodyRunning);
        }
        let car_to_stop: usize = match car_id {
            Some(id) => match self.find_car_index(id) {
                Some(i) => i,
                None => {
                    return Err(ObserverError::NoSuchCar);
                },
            },
            None => 0,
        };
        proof {
            if let Some(id) = car_id {
                lemma_find_observed(self@, id@);
            }
        }
        if timestamp < self.running_car[car_to_stop].start_at {
            return Err(ObserverError::NegativeDuration);
        }
        let stopped = self.running_car.remove(car_to_stop);
        proof {
            assert(self@ =~= old(self)@.remove(car_to_stop as int));
        }
        let duration = timestamp - stopped.start_at;
        self.record_service.record(duration, stopped.meta);
        Ok(())
    }

    /// Start when nobody is running, stop the head otherwise: the one-button
    /// interface a hardware pulse drives.
    pub fn flip_start_or_stop(&mut self, timestamp: u64) -> (r: Result<(), ObserverError>)
        requires
            old(self).wf(),
        ensures
            final(self).wf(),
            final(self).schema_spec() == old(self).schema_spec(),
            final(self).default_meta_spec() == old(self).default_meta_spec(),
            old(self)@.len() == 0 ==> {
                &&& r == Ok::<(), ObserverError>(())
                &&& final(self)@.len() == 1
                &&& final(self)@[0].start_at == timestamp
            },
            old(self)@.len() > 0 ==> {
                let car = old(self)@[0];
                if timestamp >= car.start_at {
                    &&& r == Ok::<(), ObserverError>(())
                    &&& final(self)@ =~= old(self)@.remove(0)
                } else {
                    r == Err::<(), ObserverError>(ObserverError::NegativeDuration)
                        && final(self)@ == old(self)@
                }
            },
    {
        if self.running_car.len() == 0 {
            self.start(timestamp)
        } else {
            self.stop(timestamp, &None)
        }
    }

    /// Overwrite the metadata of the addressed running car; refused when the
    /// text fails validation or no running car carries the id.
    pub fn update_metadata(&mut self, _timestamp: u64, car_id: &String, metadata: String) -> (r:
        Result<(), ObserverError>)
        requires
            old(self).wf(),
        ensures
            final(self).wf(),
            final(self).schema_spec() == old(self).schema_spec(),
            final(self).default_meta_spec() == old(self).default_meta_spec(),
            final(self).sink_ref() == old(self).sink_ref(),
            final(self).queue_ref() == old(self).queue_ref(),
            if !schema_accepts(old(self).schema_spec(), metadata@) {
                r == Err::<(), ObserverError>(ObserverError::MetadataValidationFailed)
                    && final(self)@ == old(self)@
            } else {
                match find_observed(old(self)@, car_id@) {
                    None => r == Err::<(), ObserverError>(ObserverError::NoSuchCar)
                        && final(self)@ == old(self)@,
                    Some(i) => r == Ok::<(), ObserverError>(()) && final(self)@ =~= old(
                        self,
                    )@.update(i, (ObservedCarV { meta: metadata@, ..old(self)@[i] })),
                }
            },
    {
        if !meta_accepted(&self.schema, &metadata) {
            return Err(ObserverError::MetadataValidationFailed);
        }
        let index = match self.find_car_index(car_id) {
            Some(i) => i,
            None => {
                return Err(ObserverError::NoSuchCar);
            },
        };
        proof {
            lemma_find_observed(self@, car_id@);
        }
        let old_car = self.running_car.remove(index);
        let new_car = RunningCar {
            car_id: old_car.car_id,
            start_at: old_car.start_at,
            meta: metadata,
        };
        self.running_car.insert(index, new_car);
        proof {
            assert(self@ =~= old(self)@.update(
                index as int,
                (ObservedCarV {
                    car_id: old(self)@[index as int].car_id,
                    start_at: old(self)@[index as int].start_at,
                    meta: self@[index as int].meta,
                }),
            ));
        }
        Ok(())
    }

    /// The first index of the running car with the given id.
    fn find_car_index(&self, id: &String) -> (r: Option<usize>)
        ensures
            match r {
                Some(i) => find_observed(self@, id@) == Some(i as int),
                None => find_observed(self@, id@) is None,
            },
    {
        let n = self.running_car.len();
        let mut i: usize = 0;
        while i < n
            invariant
                n == self.running_car.len(),
                0 <= i <= n,
                forall|j: int| 0 <= j < i ==> self@[j].car_id != id@,
            decreases n - i,
        {
            if self.running_car[i].car_id == *id {
                proof {
                    let s = self@;
                    lemma_find_observed(s, id@);
                    assert(s[i as int].car_id == id@);
                    if let Some(k) = find_observed(s, id@) {
                        assert(!(k < i as int));
                        assert(!((i as int) < k));
                    }
                }
                return Some(i);
            }
            i += 1;
        }
        proof {
            lemma_find_observed(self@, id@);
        }
        None
    }
}

} // verus!
