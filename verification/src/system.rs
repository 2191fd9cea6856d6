//! The aggregate lifecycle: at most one replayer at a time, gated until a
//! competition is created from configuration.
//!
//! Callers hand every command a logical timestamp in milliseconds since a
//! fixed epoch; each method builds the matching command and submits it.
//! Terminal commands generate a fresh result id at the call site, so that
//! the id stays stable across any later replay.

use vstd::prelude::*;

use crate::competition::{
    comp_apply_spec, find_track, Competition, CompetitionConfiguration, CompetitionEvent,
    CompetitionEventKind, EventKindV, EventV,
};
use crate::errors::TimingError;
use crate::ids::{generate_id, CompetitionConfigurationId, CompetitionEntryId};
use crate::replayer::{events_of, Replayer};

verus! {

/// A source of competition configurations, keyed by configuration id.
/// Implementations decide where configurations live and what they hold;
/// nothing is assumed of what a lookup returns.
pub trait CompetitionConfigurationRepository {
    /// The configuration stored under `config_id`, if any.
    fn competition_configuration(&mut self, config_id: &CompetitionConfigurationId) -> Option<
        CompetitionConfiguration,
    >;
}

/// An in-memory repository serving one fixed configuration under every id.
pub struct MockCompetitionConfigurationRepository(pub CompetitionConfiguration);

impl CompetitionConfigurationRepository for MockCompetitionConfigurationRepository {
    fn competition_configuration(&mut self, _config_id: &CompetitionConfigurationId) -> Option<
        CompetitionConfiguration,
    > {
        Some(self.0.clone())
    }
}

/// The application-facing surface of the engine.
pub struct TimingSystemApp {
    competition: Option<Replayer>,
}

/// What submitting one command through the app does: unchanged with the
/// gating error while no competition is configured; otherwise the command
/// joins the installed replayer's log and its eager result is returned.
pub open spec fn submit_outcome(
    pre: TimingSystemApp,
    post: TimingSystemApp,
    e: EventV,
    r: Result<(), TimingError>,
) -> bool {
    &&& post.wf()
    &&& pre.is_configured() == post.is_configured()
    &&& (!pre.is_configured() ==> r == Err::<(), TimingError>(
        TimingError::CompetitionNotConfigured,
    ) && post == pre)
    &&& (pre.is_configured() ==> {
        &&& post.rep().config_view() == pre.rep().config_view()
        &&& events_of(post.rep().log_view()).to_multiset() == events_of(
            pre.rep().log_view(),
        ).to_multiset().insert(e)
        &&& r == comp_apply_spec(pre.rep().entity_view(), e).1
    })
}

impl TimingSystemApp {
    /// Whether a competition has been created.
    pub closed spec fn is_configured(&self) -> bool {
        self.competition is Some
    }

    /// The installed replayer.
    pub closed spec fn rep(&self) -> Replayer {
        self.competition.unwrap()
    }

    /// Well-formedness: the installed replayer, if any, is well-formed.
    pub open spec fn wf(&self) -> bool {
        self.is_configured() ==> self.rep().wf()
    }

    /// An app with no competition configured yet.
    pub fn new() -> (r: TimingSystemApp)
        ensures
            r.wf(),
            !r.is_configured(),
    {
        TimingSystemApp { competition: None }
    }

    /// Install a fresh competition built from the given configuration,
    /// discarding any prior competition and its full log. `None` stands for
    /// a lookup that found nothing and is refused.
    pub fn create_competition(&mut self, configuration: Option<CompetitionConfiguration>) -> (r:
        Result<(), TimingError>)
        requires
            old(self).wf(),
        ensures
            final(self).wf(),
            match configuration {
                None => r == Err::<(), TimingError>(
                    TimingError::CompetitionConfigurationNotFound,
                ) && *final(self) == *old(self),
                Some(cfg) => {
                    &&& r == Ok::<(), TimingError>(())
                    &&& final(self).is_configured()
                    &&& final(self).rep().config_view() == cfg@
                    &&& final(self).rep().log_view() =~= Seq::<crate::replayer::LogEntryV>::empty()
                },
            },
    {
        match configuration {
            None => Err(TimingError::CompetitionConfigurationNotFound),
            Some(cfg) => {
                self.competition = Some(Replayer::new(cfg));
                Ok(())
            },
        }
    }

    /// Look the configuration up in `repository` and install a fresh
    /// competition from it; refused when the repository holds nothing under
    /// the id.
    pub fn create_competition_from<R: CompetitionConfigurationRepository>(
        &mut self,
        repository: &mut R,
        config_id: &CompetitionConfigurationId,
    ) -> (r: Result<(), TimingError>)
        requires
            old(self).wf(),
        ensures
            final(self).wf(),
            match r {
                Ok(()) => final(self).is_configured() && final(self).rep().log_view()
                    =~= Seq::<crate::replayer::LogEntryV>::empty(),
                Err(e) => e == TimingError::CompetitionConfigurationNotFound && *final(self)
                    == *old(self),
            },
    {
        let configuration = repository.competition_configuration(config_id);
        self.create_competition(configuration)
    }

    /// Submit one command to the installed replayer.
    fn submit(&mut self, event: CompetitionEvent) -> (r: Result<(), TimingError>)
        requires
            old(self).wf(),
        ensures
            submit_outcome(*old(self), *final(self), event@, r),
    {
        let c = self.competition.take();
        match c {
            None => Err(TimingError::CompetitionNotConfigured),
            Some(mut rep) => {
                let r = rep.command(event);
                self.competition = Some(rep);
                r
            },
        }
    }

    /// Register the next entrant on a track.
    pub fn register_next_car(
        &mut self,
        time_stamp: u64,
        track_id: &str,
        competition_entry_id: &str,
    ) -> (r: Result<(), TimingError>)
        requires
            old(self).wf(),
        ensures
            submit_outcome(
                *old(self),
                *final(self),
                (EventV {
                    time_stamp,
                    kind: EventKindV::RegisterNextCar {
                        track_id: track_id@,
                        competition_entry_id: competition_entry_id@,
                    },
                }),
                r,
            ),
    {
        self.submit(
            CompetitionEvent::new(
                time_stamp,
                CompetitionEventKind::RegisterNextCar {
                    track_id: track_id.to_owned(),
                    competition_entry_id: CompetitionEntryId::new(competition_entry_id),
                },
            ),
        )
    }

    /// Start the pending entrant on a track.
    pub fn start(&mut self, time_stamp: u64, track_id: &str) -> (r: Result<(), TimingError>)
        requires
            old(self).wf(),
        ensures
            submit_outcome(
                *old(self),
                *final(self),
                (EventV { time_stamp, kind: EventKindV::Start { track_id: track_id@ } }),
                r,
            ),
    {
        self.submit(
            CompetitionEvent::new(
                time_stamp,
                CompetitionEventKind::Start { track_id: track_id.to_owned() },
            ),
        )
    }

    /// Stop an entrant — by id, or the FIFO head — filing the checkered
    /// record under the given result id.
    pub fn stop_with_result_id(
        &mut self,
        time_stamp: u64,
        track_id: &str,
        competition_entry_id: Option<&CompetitionEntryId>,
        result_id: String,
    ) -> (r: Result<(), TimingError>)
        requires
            old(self).wf(),
        ensures
            submit_outcome(
                *old(self),
                *final(self),
                (EventV {
                    time_stamp,
                    kind: EventKindV::Stop {
                        result_id: result_id@,
                        track_id: track_id@,
                        competition_entry_id: match competition_entry_id {
                            Some(e) => Some(e@),
                            None => None,
                        },
                    },
                }),
                r,
            ),
    {
        let entry = match competition_entry_id {
            Some(e) => Some(e.clone()),
            None => None,
        };
        self.submit(
            CompetitionEvent::new(
                time_stamp,
                CompetitionEventKind::Stop {
                    result_id,
                    track_id: track_id.to_owned(),
                    competition_entry_id: entry,
                },
            ),
        )
    }

    /// Stop an entrant under a freshly generated result id.
    pub fn stop(
        &mut self,
        time_stamp: u64,
        track_id: &str,
        competition_entry_id: Option<&CompetitionEntryId>,
    ) -> (r: Result<(), TimingError>)
        requires
            old(self).wf(),
        ensures
            exists|rid: Seq<char>|
                rid.len() == 21 && submit_outcome(
                    *old(self),
                    *final(self),
                    (EventV {
                        time_stamp,
                        kind: EventKindV::Stop {
                            result_id: rid,
                            track_id: track_id@,
                            competition_entry_id: match competition_entry_id {
                                Some(e) => Some(e@),
                                None => None,
                            },
                        },
                    }),
                    r,
                ),
    {
        let result_id = generate_id();
        self.stop_with_result_id(time_stamp, track_id, competition_entry_id, result_id)
    }

    /// Discard every running entrant on a track.
    pub fn red_flag(&mut self, time_stamp: u64, track_id: &str) -> (r: Result<(), TimingError>)
        requires
            old(self).wf(),
        ensures
            submit_outcome(
                *old(self),
                *final(self),
                (EventV { time_stamp, kind: EventKindV::RedFlag { track_id: track_id@ } }),
                r,
            ),
    {
        self.submit(
            CompetitionEvent::new(
                time_stamp,
                CompetitionEventKind::RedFlag { track_id: track_id.to_owned() },
            ),
        )
    }

    /// Remove an entrant as a DNF, filing its record under the given id.
    pub fn did_not_finished_with_result_id(
        &mut self,
        time_stamp: u64,
        track_id: &str,
        competition_entry_id: &str,
        result_id: String,
    ) -> (r: Result<(), TimingError>)
        requires
            old(self).wf(),
        ensures
            submit_outcome(
                *old(self),
                *final(self),
                (EventV {
                    time_stamp,
                    kind: EventKindV::MarkDNF {
                        result_id: result_id@,
                        track_id: track_id@,
                        competition_entry_id: competition_entry_id@,
                    },
                }),
                r,
            ),
    {
        self.submit(
            CompetitionEvent::new(
                time_stamp,
                CompetitionEventKind::MarkDNF {
                    result_id,
                    track_id: track_id.to_owned(),
                    competition_entry_id: CompetitionEntryId::new(competition_entry_id),
                },
            ),
        )
    }

    /// Remove an entrant as a DNF under a freshly generated result id.
    pub fn did_not_finished(
        &mut self,
        time_stamp: u64,
        track_id: &str,
        competition_entry_id: &str,
    ) -> (r: Result<(), TimingError>)
        requires
            old(self).wf(),
        ensures
            exists|rid: Seq<char>|
                rid.len() == 21 && submit_outcome(
                    *old(self),
                    *final(self),
                    (EventV {
                        time_stamp,
                        kind: EventKindV::MarkDNF {
                            result_id: rid,
                            track_id: track_id@,
                            competition_entry_id: competition_entry_id@,
                        },
                    }),
                    r,
                ),
    {
        let result_id = generate_id();
        self.did_not_finished_with_result_id(
            time_stamp,
            track_id,
            competition_entry_id,
            result_id,
        )
    }

    /// Remove an entrant as a miss-course, filing its record under the
    /// given id.
    pub fn miss_course_with_result_id(
        &mut self,
        time_stamp: u64,
        track_id: &str,
        competition_entry_id: &str,
        result_id: String,
    ) -> (r: Result<(), TimingError>)
        requires
            old(self).wf(),
        ensures
            submit_outcome(
                *old(self),
                *final(self),
                (EventV {
                    time_stamp,
                    kind: EventKindV::MarkMissCourse {
                        result_id: result_id@,
                        track_id: track_id@,
                        competition_entry_id: competition_entry_id@,
                    },
                }),
                r,
            ),
    {
        self.submit(
            CompetitionEvent::new(
                time_stamp,
                CompetitionEventKind::MarkMissCourse {
                    result_id,
                    track_id: track_id.to_owned(),
                    competition_entry_id: CompetitionEntryId::new(competition_entry_id),
                },
            ),
        )
    }

    /// Remove an entrant as a miss-course under a freshly generated id.
    pub fn miss_course(
        &mut self,
        time_stamp: u64,
        track_id: &str,
        competition_entry_id: &str,
    ) -> (r: Result<(), TimingError>)
        requires
            old(self).wf(),
        ensures
            exists|rid: Seq<char>|
                rid.len() == 21 && submit_outcome(
                    *old(self),
                    *final(self),
                    (EventV {
                        time_stamp,
                        kind: EventKindV::MarkMissCourse {
                            result_id: rid,
                            track_id: track_id@,
                            competition_entry_id: competition_entry_id@,
                        },
                    }),
                    r,
                ),
    {
        let result_id = generate_id();
        self.miss_course_with_result_id(time_stamp, track_id, competition_entry_id, result_id)
    }

    /// Increment a running entrant's pylon-touch counter.
    pub fn mark_pylon_touch(
        &mut self,
        time_stamp: u64,
        track_id: &str,
        competition_entry_id: &str,
    ) -> (r: Result<(), TimingError>)
        requires
            old(self).wf(),
        ensures
            submit_outcome(
                *old(self),
                *final(self),
                (EventV {
                    time_stamp,
                    kind: EventKindV::AddPylonTouch {
                        track_id: track_id@,
                        competition_entry_id: competition_entry_id@,
                    },
                }),
                r,
            ),
    {
        self.submit(
            CompetitionEvent::new(
                time_stamp,
                CompetitionEventKind::AddPylonTouch {
                    track_id: track_id.to_owned(),
                    competition_entry_id: CompetitionEntryId::new(competition_entry_id),
                },
            ),
        )
    }

    /// Decrement a running entrant's pylon-touch counter.
    pub fn remove_pylon_touch(
        &mut self,
        time_stamp: u64,
        track_id: &str,
        competition_entry_id: &str,
    ) -> (r: Result<(), TimingError>)
        requires
            old(self).wf(),
        ensures
            submit_outcome(
                *old(self),
                *final(self),
                (EventV {
                    time_stamp,
                    kind: EventKindV::RemovePylonTouch {
                        track_id: track_id@,
                        competition_entry_id: competition_entry_id@,
                    },
                }),
                r,
            ),
    {
        self.submit(
            CompetitionEvent::new(
                time_stamp,
                CompetitionEventKind::RemovePylonTouch {
                    track_id: track_id.to_owned(),
                    competition_entry_id: CompetitionEntryId::new(competition_entry_id),
                },
            ),
        )
    }

    /// Increment a running entrant's derailment counter.
    pub fn add_derailment_count(
        &mut self,
        time_stamp: u64,
        track_id: &str,
        competition_entry_id: &str,
    ) -> (r: Result<(), TimingError>)
        requires
            old(self).wf(),
        ensures
            submit_outcome(
                *old(self),
                *final(self),
                (EventV {
                    time_stamp,
                    kind: EventKindV::AddDerailment {
                        track_id: track_id@,
                        competition_entry_id: competition_entry_id@,
                    },
                }),
                r,
            ),
    {
        self.submit(
            CompetitionEvent::new(
                time_stamp,
                CompetitionEventKind::AddDerailment {
                    track_id: track_id.to_owned(),
                    competition_entry_id: CompetitionEntryId::new(competition_entry_id),
                },
            ),
        )
    }

    /// Decrement a running entrant's derailment counter.
    pub fn remove_derailment_count(
        &mut self,
        time_stamp: u64,
        track_id: &str,
        competition_entry_id: &str,
    ) -> (r: Result<(), TimingError>)
        requires
            old(self).wf(),
        ensures
            submit_outcome(
                *old(self),
                *final(self),
                (EventV {
                    time_stamp,
                    kind: EventKindV::RemoveDerailment {
                        track_id: track_id@,
                        competition_entry_id: competition_entry_id@,
                    },
                }),
                r,
            ),
    {
        self.submit(
            CompetitionEvent::new(
                time_stamp,
                CompetitionEventKind::RemoveDerailment {
                    track_id: track_id.to_owned(),
                    competition_entry_id: CompetitionEntryId::new(competition_entry_id),
                },
            ),
        )
    }

    /// Mark an existing record as a DNF.
    pub fn mark_dnf_to_record(&mut self, time_stamp: u64, record_id: &str) -> (r: Result<
        (),
        TimingError,
    >)
        requires
            old(self).wf(),
        ensures
            submit_outcome(
                *old(self),
                *final(self),
                (EventV {
                    time_stamp,
                    kind: EventKindV::MarkDNFToRecord { result_id: record_id@ },
                }),
                r,
            ),
    {
        self.submit(
            CompetitionEvent::new(
                time_stamp,
                CompetitionEventKind::MarkDNFToRecord { result_id: record_id.to_owned() },
            ),
        )
    }

    /// Mark an existing record as a miss-course.
    pub fn mark_miss_course_to_record(&mut self, time_stamp: u64, record_id: &str) -> (r: Result<
        (),
        TimingError,
    >)
        requires
            old(self).wf(),
        ensures
            submit_outcome(
                *old(self),
                *final(self),
                (EventV {
                    time_stamp,
                    kind: EventKindV::MarkMissCourseToRecord { result_id: record_id@ },
                }),
                r,
            ),
    {
        self.submit(
            CompetitionEvent::new(
                time_stamp,
                CompetitionEventKind::MarkMissCourseToRecord { result_id: record_id.to_owned() },
            ),
        )
    }

    /// Soft-delete an existing record.
    pub fn remove_record(&mut self, time_stamp: u64, record_id: &str) -> (r: Result<
        (),
        TimingError,
    >)
        requires
            old(self).wf(),
        ensures
            submit_outcome(
                *old(self),
                *final(self),
                (EventV { time_stamp, kind: EventKindV::RemoveRecord { result_id: record_id@ } }),
                r,
            ),
    {
        self.submit(
            CompetitionEvent::new(
                time_stamp,
                CompetitionEventKind::RemoveRecord { result_id: record_id.to_owned() },
            ),
        )
    }

    /// Reinstate a soft-deleted record as a regular finish.
    pub fn recovery_record(&mut self, time_stamp: u64, record_id: &str) -> (r: Result<
        (),
        TimingError,
    >)
        requires
            old(self).wf(),
        ensures
            submit_outcome(
                *old(self),
                *final(self),
                (EventV {
                    time_stamp,
                    kind: EventKindV::RecoveryRecord { result_id: record_id@ },
                }),
                r,
            ),
    {
        self.submit(
            CompetitionEvent::new(
                time_stamp,
                CompetitionEventKind::RecoveryRecord { result_id: record_id.to_owned() },
            ),
        )
    }

    /// Overwrite the record type stored on an existing record.
    pub fn change_record_type(
        &mut self,
        time_stamp: u64,
        record_id: &str,
        record_type: &str,
    ) -> (r: Result<(), TimingError>)
        requires
            old(self).wf(),
        ensures
            submit_outcome(
                *old(self),
                *final(self),
                (EventV {
                    time_stamp,
                    kind: EventKindV::ChangeRecordType {
                        result_id: record_id@,
                        record_type: record_type@,
                    },
                }),
                r,
            ),
    {
        self.submit(
            CompetitionEvent::new(
                time_stamp,
                CompetitionEventKind::ChangeRecordType {
                    result_id: record_id.to_owned(),
                    record_type: record_type.to_owned(),
                },
            ),
        )
    }

    /// Overwrite the record type a track applies to new records.
    pub fn set_track_record_type(
        &mut self,
        time_stamp: u64,
        track_id: &str,
        record_type: &str,
    ) -> (r: Result<(), TimingError>)
        requires
            old(self).wf(),
        ensures
            submit_outcome(
                *old(self),
                *final(self),
                (EventV {
                    time_stamp,
                    kind: EventKindV::SetTrackRecordType {
                        track_id: track_id@,
                        record_type: record_type@,
                    },
                }),
                r,
            ),
    {
        self.submit(
            CompetitionEvent::new(
                time_stamp,
                CompetitionEventKind::SetTrackRecordType {
                    track_id: track_id.to_owned(),
                    record_type: record_type.to_owned(),
                },
            ),
        )
    }

    /// Overwrite the pylon-touch count stored on an existing record.
    pub fn change_record_pylon_touch_count(
        &mut self,
        time_stamp: u64,
        record_id: &str,
        count: u32,
    ) -> (r: Result<(), TimingError>)
        requires
            old(self).wf(),
        ensures
            submit_outcome(
                *old(self),
                *final(self),
                (EventV {
                    time_stamp,
                    kind: EventKindV::ChangeRecordPylonTouchCount {
                        result_id: record_id@,
                        count,
                    },
                }),
                r,
            ),
    {
        self.submit(
            CompetitionEvent::new(
                time_stamp,
                CompetitionEventKind::ChangeRecordPylonTouchCount {
                    result_id: record_id.to_owned(),
                    count,
                },
            ),
        )
    }

    /// Overwrite the derailment count stored on an existing record.
    pub fn change_derailment_count_of_record(
        &mut self,
        time_stamp: u64,
        record_id: &str,
        count: u32,
    ) -> (r: Result<(), TimingError>)
        requires
            old(self).wf(),
        ensures
            submit_outcome(
                *old(self),
                *final(self),
                (EventV {
                    time_stamp,
                    kind: EventKindV::ChangeRecordDerailmentCount {
                        result_id: record_id@,
                        count,
                    },
                }),
                r,
            ),
    {
        self.submit(
            CompetitionEvent::new(
                time_stamp,
                CompetitionEventKind::ChangeRecordDerailmentCount {
                    result_id: record_id.to_owned(),
                    count,
                },
            ),
        )
    }

    /// A read-only view of the current aggregate snapshot.
    pub fn snapshot(&self) -> (r: Result<&Competition, TimingError>)
        ensures
            match r {
                Ok(c) => self.is_configured() && c@ == self.rep().entity_view(),
                Err(e) => !self.is_configured() && e == TimingError::CompetitionNotConfigured,
            },
    {
        match &self.competition {
            Some(rep) => Ok(rep.get()),
            None => Err(TimingError::CompetitionNotConfigured),
        }
    }

    /// The id of the pending entrant registered on a track, if any.
    pub fn get_registered_next_car(&mut self, track_id: &str) -> (r: Result<
        Option<String>,
        TimingError,
    >)
        ensures
            *final(self) == *old(self),
            match r {
                Ok(opt) => {
                    &&& old(self).is_configured()
                    &&& find_track(old(self).rep().entity_view().tracks, track_id@) is Some
                    &&& {
                        let t =
                            old(self).rep().entity_view().tracks[find_track(
                            old(self).rep().entity_view().tracks,
                            track_id@,
                        ).unwrap()].track;
                        match opt {
                            Some(s) => t.pending_car is Some && s@ == t.pending_car.unwrap().id,
                            None => t.pending_car is None,
                        }
                    }
                },
                Err(TimingError::CompetitionNotConfigured) => !old(self).is_configured(),
                Err(TimingError::NoSuchTrack) => old(self).is_configured() && find_track(
                    old(self).rep().entity_view().tracks,
                    track_id@,
                ) is None,
                Err(_) => false,
            },
    {
        let key = track_id.to_owned();
        match &self.competition {
            None => Err(TimingError::CompetitionNotConfigured),
            Some(rep) => {
                match rep.get().get_track(&key) {
                    None => Err(TimingError::NoSuchTrack),
                    Some(track) => {
                        match track.pending_entry_id() {
                            Some(entry) => Ok(Some(entry.get().to_owned())),
                            None => Ok(None),
                        }
                    },
                }
            },
        }
    }

    /// The ids of the entrants running on a track, FIFO order.
    pub fn get_running_cars(&mut self, track_id: &str) -> (r: Result<Vec<String>, TimingError>)
        ensures
            *final(self) == *old(self),
            match r {
                Ok(ids) => {
                    &&& old(self).is_configured()
                    &&& find_track(old(self).rep().entity_view().tracks, track_id@) is Some
                    &&& ids@.map_values(|s: String| s@) =~= old(self).rep().entity_view().tracks[
                        find_track(old(self).rep().entity_view().tracks, track_id@).unwrap()
                    ].track.running_cars.map_values(|c: crate::track::CarV| c.id)
                },
                Err(TimingError::CompetitionNotConfigured) => !old(self).is_configured(),
                Err(TimingError::NoSuchTrack) => old(self).is_configured() && find_track(
                    old(self).rep().entity_view().tracks,
                    track_id@,
                ) is None,
                Err(_) => false,
            },
    {
        let key = track_id.to_owned();
        match &self.competition {
            None => Err(TimingError::CompetitionNotConfigured),
            Some(rep) => {
                match rep.get().get_track(&key) {
                    None => Err(TimingError::NoSuchTrack),
                    Some(track) => Ok(track.running_ids()),
                }
            },
        }
    }
}

} // verus!
